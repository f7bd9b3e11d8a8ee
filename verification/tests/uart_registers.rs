use mlogv32::uart::{Uart, UartAddress, UartControl, UartRegisters, UartStatus};

#[test]
fn block_addresses() {
    assert_eq!(UartAddress::Uart0.addr(), 0xf000_0010);
    assert_eq!(UartAddress::Uart1.addr(), 0xf000_0020);
    assert_eq!(UartAddress::Uart2.addr(), 0xf000_0030);
    assert_eq!(UartAddress::Uart3.addr(), 0xf000_0040);
}

#[test]
fn status_bits_low_to_high() {
    let rx_not_empty = UartStatus::new_with_raw_value(1 << 0);
    assert!(rx_not_empty.rx_not_empty());
    assert!(!rx_not_empty.rx_full());
    assert!(UartStatus::new_with_raw_value(1 << 1).rx_full());
    assert!(UartStatus::new_with_raw_value(1 << 2).tx_empty());
    assert!(UartStatus::new_with_raw_value(1 << 3).tx_full());
    assert!(UartStatus::new_with_raw_value(1 << 4).interrupts());
    assert!(UartStatus::new_with_raw_value(1 << 5).overrun_error());
    assert!(UartStatus::new_with_raw_value(1 << 6).frame_error());
    assert!(UartStatus::new_with_raw_value(1 << 7).parity_error());
}

#[test]
fn status_flags_are_independent() {
    let status = UartStatus::new_with_raw_value(0b1010_0101);
    assert!(status.rx_not_empty());
    assert!(!status.rx_full());
    assert!(status.tx_empty());
    assert!(!status.tx_full());
    assert!(!status.interrupts());
    assert!(status.overrun_error());
    assert!(!status.frame_error());
    assert!(status.parity_error());
    assert_eq!(status.raw_value(), 0b1010_0101);
}

#[test]
fn status_ignores_bits_above_the_flags() {
    let status = UartStatus::new_with_raw_value(0xffff_ff00);
    assert!(!status.rx_not_empty());
    assert!(!status.tx_empty());
    assert!(!status.overrun_error());
    assert!(!status.parity_error());
}

#[test]
fn control_bits() {
    assert_eq!(UartControl::zero().raw_value(), 0);
    assert_eq!(UartControl::zero().with_reset_tx(true).raw_value(), 0b0_0001);
    assert_eq!(UartControl::zero().with_reset_rx(true).raw_value(), 0b0_0010);
    assert_eq!(UartControl::zero().with_interrupts(true).raw_value(), 0b1_0000);
    assert_eq!(
        UartControl::zero()
            .with_interrupts(false)
            .with_reset_rx(true)
            .with_reset_tx(true)
            .raw_value(),
        0b0_0011
    );
}

#[test]
fn control_bits_can_be_cleared_again() {
    let all = UartControl::new_with_raw_value(0b1_0011);
    assert_eq!(all.with_interrupts(false).raw_value(), 0b0_0011);
    assert_eq!(all.with_reset_rx(false).raw_value(), 0b1_0001);
    assert_eq!(all.with_reset_tx(false).raw_value(), 0b1_0010);
    assert_eq!(all.with_reset_tx(true).raw_value(), 0b1_0011);
}

#[test]
fn idle_block_reports_transmit_empty_only() {
    let mut uart = Uart::new();
    assert_eq!(uart.read_status().raw_value(), 0b100);
    assert_eq!(uart.pending_len(), 0);
    assert!(uart.transmitted().is_empty());
    assert_eq!(uart.last_control().raw_value(), 0);
}

#[test]
fn received_bytes_come_out_oldest_first() {
    let mut uart = Uart::new();
    uart.receive(0x41);
    uart.receive(0x42);
    assert!(uart.read_status().rx_not_empty());
    assert_eq!(uart.read_rx(), 0x41);
    assert!(uart.read_status().rx_not_empty());
    assert_eq!(uart.read_rx(), 0x42);
    assert!(!uart.read_status().rx_not_empty());
    assert_eq!(uart.read_rx(), 0);
}

#[test]
fn receive_not_empty_follows_the_queue_not_the_flags() {
    let mut uart = Uart::new();
    uart.set_flags(UartStatus::new_with_raw_value(0b0000_0001));
    assert!(!uart.read_status().rx_not_empty());
    uart.receive(9);
    uart.set_flags(UartStatus::new_with_raw_value(0b0010_0000));
    let status = uart.read_status();
    assert!(status.rx_not_empty());
    assert!(status.overrun_error());
    assert_eq!(status.raw_value(), 0b0010_0001);
}

#[test]
fn transmit_keeps_the_low_byte() {
    let mut uart = Uart::new();
    uart.write_tx(0x1234_5678);
    uart.write_tx(0xff);
    assert_eq!(uart.transmitted().as_slice(), &[0x78, 0xff]);
}

#[test]
fn receive_reset_empties_the_queue_and_clears_receive_errors() {
    let mut uart = Uart::new();
    uart.receive(1);
    uart.receive(2);
    uart.set_flags(UartStatus::new_with_raw_value(0b1110_1100));
    uart.write_control(UartControl::zero().with_reset_rx(true));
    assert_eq!(uart.pending_len(), 0);
    assert_eq!(uart.read_status().raw_value(), 0b0000_1100);
    assert_eq!(uart.last_control().raw_value(), 0b10);
}

#[test]
fn transmit_reset_alone_leaves_the_receive_side() {
    let mut uart = Uart::new();
    uart.receive(1);
    uart.set_flags(UartStatus::new_with_raw_value(0b0010_0000));
    uart.write_control(UartControl::zero().with_reset_tx(true));
    assert_eq!(uart.pending_len(), 1);
    assert!(uart.read_status().overrun_error());
    assert_eq!(uart.last_control().raw_value(), 0b01);
}
