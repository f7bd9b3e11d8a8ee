use mlogv32::buffered::BufferedUartPort;
use mlogv32::port::{Error, UartPort};
use mlogv32::uart::{Uart, UartStatus};

fn buffered(ring_capacity: usize) -> BufferedUartPort<Uart> {
    let mut uart = Uart::new();
    uart.set_flags(UartStatus::new_with_raw_value(0));
    BufferedUartPort::new(UartPort::new(uart, 4), vec![0; ring_capacity])
}

fn feed(port: &mut BufferedUartPort<Uart>, bytes: &[u8]) {
    for &byte in bytes {
        port.inner_mut().uart_mut().receive(byte);
    }
}

#[test]
fn fill_waits_for_data() {
    let mut port = buffered(8);
    assert_eq!(port.poll_fill(), Ok(None));
    assert_eq!(port.buffered_len(), 0);
}

#[test]
fn fill_hands_out_what_arrived() {
    let mut port = buffered(8);
    feed(&mut port, b"abc");
    assert_eq!(port.poll_fill(), Ok(Some(&b"abc"[..])));
    assert_eq!(port.buffered_len(), 3);
    port.consume(1);
    assert_eq!(port.buffered_len(), 2);
}

#[test]
fn fill_does_not_ask_the_device_while_bytes_are_buffered() {
    let mut port = buffered(8);
    feed(&mut port, b"abc");
    assert_eq!(port.poll_fill(), Ok(Some(&b"abc"[..])));
    feed(&mut port, b"def");
    port.consume(2);
    assert_eq!(port.poll_fill(), Ok(Some(&b"c"[..])));
    assert_eq!(port.inner_mut().uart_mut().pending_len(), 3);
    port.consume(1);
    assert_eq!(port.poll_fill(), Ok(Some(&b"def"[..])));
}

#[test]
fn one_fill_reads_no_more_than_the_free_run() {
    let mut port = buffered(4);
    feed(&mut port, b"0123456789");
    assert_eq!(port.poll_fill(), Ok(Some(&b"0123"[..])));
    assert_eq!(port.inner_mut().uart_mut().pending_len(), 6);
}

#[test]
fn round_trip_across_the_wrap() {
    let mut port = buffered(5);
    let sent: Vec<u8> = (0..=99).collect();
    let mut seen: Vec<u8> = Vec::new();
    let mut next = 0;
    let mut round = 0;
    while seen.len() < sent.len() {
        let chunk = (round % 4 + 1).min(sent.len() - next);
        feed(&mut port, &sent[next..next + chunk]);
        next += chunk;
        let run = match port.poll_fill() {
            Ok(Some(run)) => run.to_vec(),
            other => panic!("no data: {:?}", other),
        };
        assert!(!run.is_empty());
        let take = (round % 3 + 1).min(run.len());
        seen.extend_from_slice(&run[..take]);
        port.consume(take);
        round += 1;
        if next == sent.len() && port.buffered_len() == 0
            && port.inner_mut().uart_mut().pending_len() == 0
        {
            break;
        }
    }
    assert_eq!(seen, sent);
}

#[test]
fn a_wrapped_region_takes_two_fills() {
    let mut port = buffered(4);
    feed(&mut port, b"abc");
    assert_eq!(port.poll_fill(), Ok(Some(&b"abc"[..])));
    port.consume(3);
    // The ring is empty with its cursors at place 3: one place to the end.
    feed(&mut port, b"defg");
    assert_eq!(port.poll_fill(), Ok(Some(&b"d"[..])));
    port.consume(1);
    assert_eq!(port.poll_fill(), Ok(Some(&b"efg"[..])));
    port.consume(3);
    assert_eq!(port.poll_fill(), Ok(None));
}

#[test]
fn overrun_passes_through_fill() {
    let mut port = buffered(8);
    feed(&mut port, &[1, 2, 3]);
    port.inner_mut().uart_mut().set_flags(UartStatus::new_with_raw_value(0b0010_0000));
    assert_eq!(port.poll_fill(), Err(Error::Overrun));
    assert_eq!(port.poll_fill(), Err(Error::Overrun));
    assert_eq!(port.buffered_len(), 0);
}

#[test]
fn buffered_bytes_outlive_an_overrun() {
    let mut port = buffered(8);
    feed(&mut port, &[1, 2, 3]);
    assert_eq!(port.poll_fill(), Ok(Some(&[1u8, 2, 3][..])));
    feed(&mut port, &[4]);
    port.inner_mut().uart_mut().set_flags(UartStatus::new_with_raw_value(0b0010_0000));
    assert_eq!(port.poll_fill(), Ok(Some(&[1u8, 2, 3][..])));
    port.consume(3);
    assert_eq!(port.poll_fill(), Err(Error::Overrun));
    port.clear();
    assert_eq!(port.poll_fill(), Ok(None));
}

#[test]
fn ring_without_storage_reads_nothing() {
    let mut port = buffered(0);
    feed(&mut port, &[1]);
    assert_eq!(port.poll_fill(), Ok(Some(&[][..])));
    assert_eq!(port.inner_mut().uart_mut().pending_len(), 1);
}

#[test]
fn with_an_empty_ring_reads_go_to_the_port_as_writes_do() {
    let mut port = buffered(8);
    feed(&mut port, b"xy");
    assert_eq!(port.read_ready(), Ok(true));
    let mut buf = [0; 4];
    assert_eq!(port.poll_read(&mut buf), Ok(Some(2)));
    assert_eq!(&buf[..2], b"xy");
    assert_eq!(port.buffered_len(), 0);
    assert_eq!(port.read_ready(), Ok(false));
    assert_eq!(port.write_ready(), Ok(true));
    assert_eq!(port.poll_write(b"hello"), Some(4));
    assert_eq!(port.write_ready(), Ok(false));
    assert_eq!(port.poll_write(b"o"), None);
    assert_eq!(port.inner_mut().uart_mut().transmitted().as_slice(), b"hell");
}

#[test]
fn init_resets_the_device_and_keeps_the_ring() {
    let mut port = buffered(8);
    feed(&mut port, b"ab");
    assert_eq!(port.poll_fill(), Ok(Some(&b"ab"[..])));
    feed(&mut port, b"cd");
    port.init();
    assert_eq!(port.inner_mut().uart_mut().last_control().raw_value(), 0b11);
    assert_eq!(port.inner_mut().uart_mut().pending_len(), 0);
    assert_eq!(port.poll_fill(), Ok(Some(&b"ab"[..])));
}

#[test]
fn ready_while_bytes_are_buffered() {
    let mut port = buffered(8);
    feed(&mut port, b"ab");
    assert_eq!(port.poll_fill(), Ok(Some(&b"ab"[..])));
    // The device has nothing more, the ring has: a read would find data.
    assert_eq!(port.inner_mut().uart_mut().pending_len(), 0);
    assert_eq!(port.read_ready(), Ok(true));
    port.consume(2);
    assert_eq!(port.read_ready(), Ok(false));
    feed(&mut port, b"c");
    assert_eq!(port.read_ready(), Ok(true));
}

#[test]
fn read_serves_buffered_bytes_first() {
    let mut port = buffered(8);
    feed(&mut port, b"abc");
    assert_eq!(port.poll_fill(), Ok(Some(&b"abc"[..])));
    feed(&mut port, b"def");
    let mut buf = [0; 2];
    assert_eq!(port.poll_read(&mut buf), Ok(Some(2)));
    assert_eq!(&buf, b"ab");
    assert_eq!(port.inner_mut().uart_mut().pending_len(), 3);
    let mut rest = [0; 8];
    assert_eq!(port.poll_read(&mut rest), Ok(Some(1)));
    assert_eq!(rest[0], b'c');
    assert_eq!(port.buffered_len(), 0);
    assert_eq!(port.poll_read(&mut rest), Ok(Some(3)));
    assert_eq!(&rest[..3], b"def");
    assert_eq!(port.poll_read(&mut rest), Ok(None));
}

#[test]
fn read_of_buffered_bytes_ignores_an_overrun() {
    let mut port = buffered(8);
    feed(&mut port, b"ab");
    assert_eq!(port.poll_fill(), Ok(Some(&b"ab"[..])));
    feed(&mut port, b"c");
    port.inner_mut().uart_mut().set_flags(UartStatus::new_with_raw_value(0b0010_0000));
    let mut buf = [0; 4];
    assert_eq!(port.poll_read(&mut buf), Ok(Some(2)));
    assert_eq!(&buf[..2], b"ab");
    assert_eq!(port.poll_read(&mut buf), Err(Error::Overrun));
}

#[test]
fn second_fill_hands_out_the_same_run() {
    let mut port = buffered(8);
    feed(&mut port, b"abcd");
    assert_eq!(port.poll_fill(), Ok(Some(&b"abcd"[..])));
    feed(&mut port, b"ef");
    assert_eq!(port.poll_fill(), Ok(Some(&b"abcd"[..])));
    assert_eq!(port.next_run_bytes(), b"abcd");
    assert_eq!(port.next_run_len(), 4);
    assert_eq!(port.inner_mut().uart_mut().pending_len(), 2);
}

#[test]
fn fill_after_a_partial_consume_hands_out_the_rest() {
    let mut port = buffered(8);
    feed(&mut port, b"abcd");
    assert_eq!(port.poll_fill(), Ok(Some(&b"abcd"[..])));
    port.consume(0);
    assert_eq!(port.poll_fill(), Ok(Some(&b"abcd"[..])));
    port.consume(1);
    assert_eq!(port.poll_fill(), Ok(Some(&b"bcd"[..])));
    port.consume(2);
    assert_eq!(port.poll_fill(), Ok(Some(&b"d"[..])));
}
