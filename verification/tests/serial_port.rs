use mlogv32::port::{Error, UartPort};
use mlogv32::uart::{Uart, UartStatus};

const BUSY: u32 = 0;
const TX_EMPTY: u32 = 0b0000_0100;
const OVERRUN: u32 = 0b0010_0000;

fn port_with_flags(flags: u32, fifo_capacity: usize) -> UartPort<Uart> {
    let mut uart = Uart::new();
    uart.set_flags(UartStatus::new_with_raw_value(flags));
    UartPort::new(uart, fifo_capacity)
}

#[test]
fn new_port_touches_nothing() {
    let mut port = UartPort::new(Uart::new(), 253);
    assert_eq!(port.fifo_capacity(), 253);
    assert_eq!(port.fifo_len(), 0);
    assert!(port.uart_mut().transmitted().is_empty());
    assert_eq!(port.uart_mut().last_control().raw_value(), 0);
}

#[test]
fn init_pulses_both_resets_with_interrupts_off() {
    let mut port = port_with_flags(BUSY, 4);
    port.uart_mut().receive(7);
    port.init();
    assert_eq!(port.uart_mut().last_control().raw_value(), 0b0_0011);
    assert_eq!(port.uart_mut().pending_len(), 0);
}

#[test]
fn clear_pulses_both_resets() {
    let mut port = port_with_flags(BUSY, 4);
    port.uart_mut().receive(7);
    port.clear();
    assert_eq!(port.uart_mut().last_control().raw_value(), 0b0_0011);
    assert!(!port.has_data());
}

#[test]
fn fifo_of_four_fills_and_resyncs() {
    let mut port = port_with_flags(BUSY, 4);
    assert!(port.try_write_byte(b'a'));
    assert!(port.try_write_byte(b'b'));
    assert!(port.try_write_byte(b'c'));
    assert!(port.try_write_byte(b'd'));
    assert_eq!(port.fifo_len(), 4);
    assert!(!port.try_write_byte(b'e'));
    assert!(!port.try_write_byte(b'e'));
    assert_eq!(port.fifo_len(), 4);
    assert_eq!(port.uart_mut().transmitted().as_slice(), b"abcd");
    port.uart_mut().set_flags(UartStatus::new_with_raw_value(TX_EMPTY));
    assert!(port.try_write_byte(b'f'));
    assert_eq!(port.fifo_len(), 1);
    assert_eq!(port.uart_mut().transmitted().as_slice(), b"abcdf");
}

#[test]
fn transmit_empty_resets_the_estimate_on_every_write() {
    let mut port = port_with_flags(TX_EMPTY, 2);
    assert!(port.try_write_byte(1));
    assert!(port.try_write_byte(2));
    assert!(port.try_write_byte(3));
    assert_eq!(port.fifo_len(), 1);
    assert_eq!(port.uart_mut().transmitted().as_slice(), &[1, 2, 3]);
}

#[test]
fn can_write_agrees_with_try_write_byte() {
    for flags in [BUSY, TX_EMPTY] {
        for already in 0..=3usize {
            let mut port = port_with_flags(BUSY, 3);
            for _ in 0..already {
                assert!(port.try_write_byte(0));
            }
            port.uart_mut().set_flags(UartStatus::new_with_raw_value(flags));
            let answer = port.can_write();
            assert_eq!(answer, flags == TX_EMPTY || already < 3);
            assert_eq!(port.try_write_byte(0x55), answer);
        }
    }
}

#[test]
fn can_write_resyncs_the_estimate() {
    let mut port = port_with_flags(BUSY, 2);
    assert!(port.try_write_byte(1));
    assert!(port.try_write_byte(2));
    assert!(!port.can_write());
    assert_eq!(port.fifo_len(), 2);
    port.uart_mut().set_flags(UartStatus::new_with_raw_value(TX_EMPTY));
    assert!(port.can_write());
    assert_eq!(port.fifo_len(), 0);
}

#[test]
fn a_fifo_without_depth_takes_nothing() {
    let mut port = port_with_flags(TX_EMPTY, 0);
    assert!(port.can_write());
    assert!(!port.try_write_byte(1));
    assert_eq!(port.write(&[1, 2]), 0);
    assert!(port.uart_mut().transmitted().is_empty());
    let mut busy = port_with_flags(BUSY, 0);
    assert!(!busy.can_write());
}

#[test]
fn read_byte_takes_what_is_there() {
    let mut port = port_with_flags(BUSY, 4);
    assert_eq!(port.read_byte(), None);
    port.uart_mut().receive(0x30);
    port.uart_mut().receive(0x31);
    assert!(port.has_data());
    assert_eq!(port.read_byte(), Some(0x30));
    assert_eq!(port.read_byte(), Some(0x31));
    assert_eq!(port.read_byte(), None);
    assert!(!port.has_data());
}

#[test]
fn read_stops_when_the_device_runs_dry() {
    let mut port = port_with_flags(BUSY, 4);
    for byte in [10, 20, 30] {
        port.uart_mut().receive(byte);
    }
    let mut buf = [0xee; 5];
    assert_eq!(port.read(&mut buf), 3);
    assert_eq!(buf, [10, 20, 30, 0xee, 0xee]);
    assert_eq!(port.read(&mut buf), 0);
    assert_eq!(buf, [10, 20, 30, 0xee, 0xee]);
}

#[test]
fn read_stops_when_the_buffer_is_full() {
    let mut port = port_with_flags(BUSY, 4);
    for byte in [1, 2, 3, 4, 5] {
        port.uart_mut().receive(byte);
    }
    let mut buf = [0; 2];
    assert_eq!(port.read(&mut buf), 2);
    assert_eq!(buf, [1, 2]);
    assert_eq!(port.uart_mut().pending_len(), 3);
    let mut none: [u8; 0] = [];
    assert_eq!(port.read(&mut none), 0);
    assert_eq!(port.uart_mut().pending_len(), 3);
}

#[test]
fn write_stops_at_the_first_byte_refused() {
    let mut port = port_with_flags(BUSY, 3);
    assert_eq!(port.write(b"hello"), 3);
    assert_eq!(port.fifo_len(), 3);
    assert_eq!(port.write(b"lo"), 0);
    assert_eq!(port.uart_mut().transmitted().as_slice(), b"hel");
    port.uart_mut().set_flags(UartStatus::new_with_raw_value(TX_EMPTY));
    assert_eq!(port.write(b"lo"), 2);
    assert_eq!(port.uart_mut().transmitted().as_slice(), b"hello");
    assert_eq!(port.write(b""), 0);
}

#[test]
fn readiness_cannot_fail() {
    let mut port = port_with_flags(BUSY, 1);
    assert_eq!(port.read_ready(), Ok(false));
    port.uart_mut().receive(1);
    assert_eq!(port.read_ready(), Ok(true));
    assert_eq!(port.write_ready(), Ok(true));
    assert!(port.try_write_byte(9));
    assert_eq!(port.write_ready(), Ok(false));
    assert_eq!(port.flush(), Ok(()));
}

#[test]
fn poll_read_without_places_asks_nothing() {
    let mut port = port_with_flags(OVERRUN, 4);
    port.uart_mut().receive(1);
    let mut none: [u8; 0] = [];
    assert_eq!(port.poll_read(&mut none), Ok(Some(0)));
    assert_eq!(port.uart_mut().pending_len(), 1);
}

#[test]
fn poll_read_waits_for_data() {
    let mut port = port_with_flags(BUSY, 4);
    let mut buf = [0; 4];
    assert_eq!(port.poll_read(&mut buf), Ok(None));
    port.uart_mut().receive(0x61);
    port.uart_mut().receive(0x62);
    assert_eq!(port.poll_read(&mut buf), Ok(Some(2)));
    assert_eq!(buf, [0x61, 0x62, 0, 0]);
    assert_eq!(port.poll_read(&mut buf), Ok(None));
}

#[test]
fn overrun_is_reported_until_cleared() {
    let mut port = port_with_flags(BUSY, 4);
    for byte in [1, 2, 3] {
        port.uart_mut().receive(byte);
    }
    port.uart_mut().set_flags(UartStatus::new_with_raw_value(OVERRUN));
    let mut buf = [0; 8];
    assert_eq!(port.poll_read(&mut buf), Err(Error::Overrun));
    assert_eq!(port.poll_read(&mut buf), Err(Error::Overrun));
    assert_eq!(port.poll_read(&mut buf), Err(Error::Overrun));
    assert_eq!(buf, [0; 8]);
    assert_eq!(port.uart_mut().pending_len(), 3);
    port.clear();
    assert_eq!(port.poll_read(&mut buf), Ok(None));
    port.uart_mut().receive(4);
    assert_eq!(port.poll_read(&mut buf), Ok(Some(1)));
    assert_eq!(buf[0], 4);
}

#[test]
fn overrun_without_data_is_not_looked_at() {
    let mut port = port_with_flags(OVERRUN, 4);
    let mut buf = [0; 2];
    assert_eq!(port.poll_read(&mut buf), Ok(None));
}

#[test]
fn poll_write_waits_for_room() {
    let mut port = port_with_flags(BUSY, 2);
    assert_eq!(port.poll_write(b""), Some(0));
    assert_eq!(port.poll_write(b"abc"), Some(2));
    assert_eq!(port.poll_write(b"c"), None);
    port.uart_mut().set_flags(UartStatus::new_with_raw_value(TX_EMPTY));
    assert_eq!(port.poll_write(b"c"), Some(1));
    assert_eq!(port.uart_mut().transmitted().as_slice(), b"abc");
}
