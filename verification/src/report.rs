//! What the panic handler prints before it halts the processor.

use vstd::prelude::*;
use vstd::string::StringExecFns;

verus! {

/// `text` on a line of its own, or nothing where there is no text.
pub open spec fn line_of(text: Option<Seq<char>>) -> Seq<char> {
    match text {
        Some(text) => "\n"@ + text,
        None => Seq::empty(),
    }
}

/// The report of a panic with this message, raised in this source file: the
/// words "thread panicked" alone where neither is known, else followed by a
/// colon and by each of the two that is known on a line of its own, the
/// message first.
pub open spec fn panic_text(message: Option<Seq<char>>, file: Option<Seq<char>>) -> Seq<char> {
    if message is None && file is None {
        "thread panicked"@
    } else {
        "thread panicked:"@ + line_of(message) + line_of(file)
    }
}

/// The view of an optional string.
pub open spec fn text_of(s: Option<&str>) -> Option<Seq<char>> {
    match s {
        Some(s) => Some(s@),
        None => None,
    }
}

/// The report of a panic with this message, raised in this source file.
pub fn panic_report(message: Option<&str>, file: Option<&str>) -> (report: String)
    ensures
        report@ == panic_text(text_of(message), text_of(file)),
{
    if message.is_none() && file.is_none() {
        String::from_str("thread panicked")
    } else {
        let mut report = String::from_str("thread panicked:");
        if let Some(message) = message {
            report.append("\n");
            report.append(message);
        }
        if let Some(file) = file {
            report.append("\n");
            report.append(file);
        }
        proof {
            assert(report@ =~= panic_text(text_of(message), text_of(file)));
        }
        report
    }
}

} // verus!
