use mlogv32::report::panic_report;

#[test]
fn report_without_details() {
    assert_eq!(panic_report(None, None), "thread panicked");
}

#[test]
fn report_with_message_and_file() {
    assert_eq!(
        panic_report(Some("index out of bounds"), Some("src/main.rs")),
        "thread panicked:\nindex out of bounds\nsrc/main.rs"
    );
}

#[test]
fn report_with_one_detail() {
    assert_eq!(panic_report(Some("boom"), None), "thread panicked:\nboom");
    assert_eq!(panic_report(None, Some("src/lib.rs")), "thread panicked:\nsrc/lib.rs");
    assert_eq!(panic_report(Some(""), None), "thread panicked:\n");
}
