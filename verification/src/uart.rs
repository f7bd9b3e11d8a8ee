//! Register-level view of one UART block: the address map, the status and
//! control words, the access trait through which a driver reaches the four
//! registers, and a block held in ordinary memory for use off the target.

use std::collections::VecDeque;
use vstd::prelude::*;

verus! {

/// The four UART blocks of the platform.
#[derive(Clone, Copy, PartialEq, Eq, Structural, Debug)]
pub enum UartAddress {
    Uart0,
    Uart1,
    Uart2,
    Uart3,
}

impl UartAddress {
    /// Physical base address of the block.
    pub open spec fn spec_addr(&self) -> usize {
        match self {
            UartAddress::Uart0 => 0xf000_0010,
            UartAddress::Uart1 => 0xf000_0020,
            UartAddress::Uart2 => 0xf000_0030,
            UartAddress::Uart3 => 0xf000_0040,
        }
    }

    /// Physical base address of the block.
    #[verifier::when_used_as_spec(spec_addr)]
    pub fn addr(&self) -> (a: usize)
        ensures
            a == self.spec_addr(),
    {
        match self {
            UartAddress::Uart0 => 0xf000_0010,
            UartAddress::Uart1 => 0xf000_0020,
            UartAddress::Uart2 => 0xf000_0030,
            UartAddress::Uart3 => 0xf000_0040,
        }
    }
}

/// Whether bit `n` of `raw` is set.
pub open spec fn bit(raw: u32, n: u32) -> bool {
    (raw >> n) & 1 == 1
}

/// `raw` with bit `n` forced to `value`.
pub open spec fn with_bit(raw: u32, n: u32, value: bool) -> u32 {
    if value {
        raw | (1u32 << n)
    } else {
        raw & !(1u32 << n)
    }
}

/// The read-only status word. Bits 0 to 7, low to high: receive FIFO not
/// empty, receive FIFO full, transmit FIFO empty, transmit FIFO full,
/// interrupt pending, overrun error, frame error, parity error.
#[derive(Clone, Copy, PartialEq, Eq, Structural, Debug)]
pub struct UartStatus {
    /// The word as the register holds it.
    pub raw: u32,
}

impl UartStatus {
    /// The word as read from the status register.
    pub open spec fn spec_raw_value(&self) -> u32 {
        self.raw
    }

    /// Whether a received byte waits in the receive FIFO.
    pub open spec fn spec_rx_not_empty(&self) -> bool {
        bit(self.spec_raw_value(), 0)
    }

    /// Whether the receive FIFO is full.
    pub open spec fn spec_rx_full(&self) -> bool {
        bit(self.spec_raw_value(), 1)
    }

    /// Whether the transmit FIFO is empty.
    pub open spec fn spec_tx_empty(&self) -> bool {
        bit(self.spec_raw_value(), 2)
    }

    /// Whether the transmit FIFO is full.
    pub open spec fn spec_tx_full(&self) -> bool {
        bit(self.spec_raw_value(), 3)
    }

    /// Whether an interrupt is pending.
    pub open spec fn spec_interrupts(&self) -> bool {
        bit(self.spec_raw_value(), 4)
    }

    /// Whether received bytes were dropped because they were not read in time.
    pub open spec fn spec_overrun_error(&self) -> bool {
        bit(self.spec_raw_value(), 5)
    }

    /// Whether a received byte was badly framed.
    pub open spec fn spec_frame_error(&self) -> bool {
        bit(self.spec_raw_value(), 6)
    }

    /// Whether a received byte failed the parity check.
    pub open spec fn spec_parity_error(&self) -> bool {
        bit(self.spec_raw_value(), 7)
    }

    /// Wraps a word as read from the status register.
    pub fn new_with_raw_value(raw: u32) -> (s: Self)
        ensures
            s.spec_raw_value() == raw,
    {
        UartStatus { raw }
    }

    /// The word as read from the status register.
    #[verifier::when_used_as_spec(spec_raw_value)]
    pub fn raw_value(&self) -> (raw: u32)
        ensures
            raw == self.spec_raw_value(),
    {
        self.raw
    }

    /// Whether a received byte waits in the receive FIFO.
    #[verifier::when_used_as_spec(spec_rx_not_empty)]
    pub fn rx_not_empty(&self) -> (set: bool)
        ensures
            set == self.spec_rx_not_empty(),
    {
        (self.raw >> 0u32) & 1 == 1
    }

    /// Whether the receive FIFO is full.
    #[verifier::when_used_as_spec(spec_rx_full)]
    pub fn rx_full(&self) -> (set: bool)
        ensures
            set == self.spec_rx_full(),
    {
        (self.raw >> 1u32) & 1 == 1
    }

    /// Whether the transmit FIFO is empty.
    #[verifier::when_used_as_spec(spec_tx_empty)]
    pub fn tx_empty(&self) -> (set: bool)
        ensures
            set == self.spec_tx_empty(),
    {
        (self.raw >> 2u32) & 1 == 1
    }

    /// Whether the transmit FIFO is full.
    #[verifier::when_used_as_spec(spec_tx_full)]
    pub fn tx_full(&self) -> (set: bool)
        ensures
            set == self.spec_tx_full(),
    {
        (self.raw >> 3u32) & 1 == 1
    }

    /// Whether an interrupt is pending.
    #[verifier::when_used_as_spec(spec_interrupts)]
    pub fn interrupts(&self) -> (set: bool)
        ensures
            set == self.spec_interrupts(),
    {
        (self.raw >> 4u32) & 1 == 1
    }

    /// Whether received bytes were dropped because they were not read in time.
    #[verifier::when_used_as_spec(spec_overrun_error)]
    pub fn overrun_error(&self) -> (set: bool)
        ensures
            set == self.spec_overrun_error(),
    {
        (self.raw >> 5u32) & 1 == 1
    }

    /// Whether a received byte was badly framed.
    #[verifier::when_used_as_spec(spec_frame_error)]
    pub fn frame_error(&self) -> (set: bool)
        ensures
            set == self.spec_frame_error(),
    {
        (self.raw >> 6u32) & 1 == 1
    }

    /// Whether a received byte failed the parity check.
    #[verifier::when_used_as_spec(spec_parity_error)]
    pub fn parity_error(&self) -> (set: bool)
        ensures
            set == self.spec_parity_error(),
    {
        (self.raw >> 7u32) & 1 == 1
    }
}

/// The write-only control word. Bit 0 resets the transmit path, bit 1 resets
/// the receive path, bit 4 enables interrupts; bits 2 and 3 are reserved.
#[derive(Clone, Copy, PartialEq, Eq, Structural, Debug)]
pub struct UartControl {
    /// The word as the register takes it.
    pub raw: u32,
}

impl UartControl {
    /// The word to be written to the control register.
    pub open spec fn spec_raw_value(&self) -> u32 {
        self.raw
    }

    /// Whether the word resets the transmit path.
    pub open spec fn reset_tx(self) -> bool {
        bit(self.spec_raw_value(), 0)
    }

    /// Whether the word resets the receive path.
    pub open spec fn reset_rx(self) -> bool {
        bit(self.spec_raw_value(), 1)
    }

    /// Whether the word enables interrupts.
    pub open spec fn interrupts(self) -> bool {
        bit(self.spec_raw_value(), 4)
    }

    /// The control word with every bit clear.
    pub fn zero() -> (c: Self)
        ensures
            c.spec_raw_value() == 0,
    {
        UartControl { raw: 0 }
    }

    /// Wraps a word to be written to the control register.
    pub fn new_with_raw_value(raw: u32) -> (c: Self)
        ensures
            c.spec_raw_value() == raw,
    {
        UartControl { raw }
    }

    /// The word to be written to the control register.
    #[verifier::when_used_as_spec(spec_raw_value)]
    pub fn raw_value(&self) -> (raw: u32)
        ensures
            raw == self.spec_raw_value(),
    {
        self.raw
    }

    /// The same word with the interrupt-enable bit set to `value`.
    pub fn with_interrupts(self, value: bool) -> (c: Self)
        ensures
            c.spec_raw_value() == with_bit(self.spec_raw_value(), 4, value),
    {
        if value {
            UartControl { raw: self.raw | (1u32 << 4u32) }
        } else {
            UartControl { raw: self.raw & !(1u32 << 4u32) }
        }
    }

    /// The same word with the receive-reset bit set to `value`.
    pub fn with_reset_rx(self, value: bool) -> (c: Self)
        ensures
            c.spec_raw_value() == with_bit(self.spec_raw_value(), 1, value),
    {
        if value {
            UartControl { raw: self.raw | (1u32 << 1u32) }
        } else {
            UartControl { raw: self.raw & !(1u32 << 1u32) }
        }
    }

    /// The same word with the transmit-reset bit set to `value`.
    pub fn with_reset_tx(self, value: bool) -> (c: Self)
        ensures
            c.spec_raw_value() == with_bit(self.spec_raw_value(), 0, value),
    {
        if value {
            UartControl { raw: self.raw | (1u32 << 0u32) }
        } else {
            UartControl { raw: self.raw & !(1u32 << 0u32) }
        }
    }
}

/// Setting bit `n` makes it read as the value set and leaves every other bit
/// as it was.
pub proof fn lemma_with_bit(raw: u32, n: u32, value: bool, m: u32)
    requires
        n < 32,
        m < 32,
    ensures
        bit(with_bit(raw, n, value), m) == (if m == n {
            value
        } else {
            bit(raw, m)
        }),
{
    assert(((raw | (1u32 << n)) >> m) & 1 == (if m == n {
        1u32
    } else {
        (raw >> m) & 1
    })) by (bit_vector)
        requires
            n < 32,
            m < 32,
    ;
    assert(((raw & !(1u32 << n)) >> m) & 1 == (if m == n {
        0u32
    } else {
        (raw >> m) & 1
    })) by (bit_vector)
        requires
            n < 32,
            m < 32,
    ;
    assert((raw >> m) & 1 == 0 || (raw >> m) & 1 == 1) by (bit_vector);
}

/// One access to a register of the block, with the word that crossed the bus.
#[derive(Clone, Copy, PartialEq, Eq, Structural, Debug)]
pub enum Access {
    /// The receive register was read and gave this word.
    ReadRx(u32),
    /// This word was written to the transmit register.
    WriteTx(u32),
    /// The status register was read and gave this word.
    ReadStatus(UartStatus),
    /// This word was written to the control register.
    WriteControl(UartControl),
}

/// Access to the four registers of one UART block.
///
/// The registers are ports, not storage: a read of the receive register takes
/// a byte out of the device, and the status word changes under the driver's
/// feet. So the contract of an access promises nothing about the word that
/// comes back. It only records the access: `accesses` is the sequence of all
/// accesses made through this handle, oldest first, and every method appends
/// exactly the access it performs. What a driver says it did to the device
/// can therefore be done in one way only: through these methods.
pub trait UartRegisters {
    /// Every access made through this handle so far, oldest first.
    ///
    /// A handle on the hardware has nowhere to keep this record and leaves
    /// the definition as it stands here. Of such a handle the contracts of
    /// the four methods are taken on trust: they are then read as "this
    /// method performs exactly this access".
    open spec fn accesses(&self) -> Seq<Access> {
        Seq::empty()
    }

    /// Reads the receive register.
    fn read_rx(&mut self) -> (word: u32)
        ensures
            final(self).accesses() == old(self).accesses().push(Access::ReadRx(word)),
    ;

    /// Writes the transmit register.
    fn write_tx(&mut self, word: u32)
        ensures
            final(self).accesses() == old(self).accesses().push(Access::WriteTx(word)),
    ;

    /// Reads the status register.
    fn read_status(&mut self) -> (status: UartStatus)
        ensures
            final(self).accesses() == old(self).accesses().push(Access::ReadStatus(status)),
    ;

    /// Writes the control register.
    fn write_control(&mut self, control: UartControl)
        ensures
            final(self).accesses() == old(self).accesses().push(Access::WriteControl(control)),
    ;
}

/// A UART block held in ordinary memory.
///
/// It stands in for the device wherever there is none: the far end of the
/// line is played by whoever owns the value. Bytes handed to `receive` wait in
/// the receive queue until the driver reads them, bytes the driver transmits
/// are kept in order, and the status flags other than "receive not empty" are
/// whatever `set_flags` last made them.
pub struct Uart {
    incoming: VecDeque<u8>,
    outgoing: Vec<u8>,
    flags: u32,
    control: UartControl,
    history: Ghost<Seq<Access>>,
}

/// The three receive error flags: overrun, frame and parity.
pub const RX_ERROR_FLAGS: u32 = 0xe0;

impl Uart {
    /// Bytes received from the line that the driver has not read yet.
    pub closed spec fn pending(&self) -> Seq<u8> {
        self.incoming@
    }

    /// Every byte written to the transmit register, oldest first.
    pub closed spec fn sent(&self) -> Seq<u8> {
        self.outgoing@
    }

    /// The status word as last set from outside. Bit 0 of it is ignored.
    pub closed spec fn flags(&self) -> u32 {
        self.flags
    }

    /// The word last written to the control register, zero before the first.
    pub closed spec fn control(&self) -> UartControl {
        self.control
    }

    /// The status word a read would give now: the flags, with bit 0 telling
    /// whether a received byte is waiting.
    pub open spec fn status(&self) -> u32 {
        with_bit(self.flags(), 0, self.pending().len() > 0)
    }

    /// An idle block: nothing received, nothing sent, only "transmit empty"
    /// set.
    pub fn new() -> (uart: Self)
        ensures
            uart.pending() == Seq::<u8>::empty(),
            uart.sent() == Seq::<u8>::empty(),
            uart.flags() == 4,
            uart.control().spec_raw_value() == 0,
            uart.accesses() == Seq::<Access>::empty(),
    {
        Uart {
            incoming: VecDeque::new(),
            outgoing: Vec::new(),
            flags: 4,
            control: UartControl::zero(),
            history: Ghost(Seq::empty()),
        }
    }

    /// A byte arrives from the line.
    pub fn receive(&mut self, byte: u8)
        ensures
            final(self).pending() == old(self).pending().push(byte),
            final(self).sent() == old(self).sent(),
            final(self).flags() == old(self).flags(),
            final(self).control() == old(self).control(),
            final(self).accesses() == old(self).accesses(),
    {
        self.incoming.push_back(byte);
    }

    /// Sets the status flags. Bit 0 is kept but has no effect: "receive not
    /// empty" always follows the receive queue.
    pub fn set_flags(&mut self, status: UartStatus)
        ensures
            final(self).flags() == status.spec_raw_value(),
            final(self).pending() == old(self).pending(),
            final(self).sent() == old(self).sent(),
            final(self).control() == old(self).control(),
            final(self).accesses() == old(self).accesses(),
    {
        self.flags = status.raw_value();
    }

    /// Every byte written to the transmit register so far, oldest first.
    pub fn transmitted(&self) -> (bytes: &Vec<u8>)
        ensures
            bytes@ == self.sent(),
    {
        &self.outgoing
    }

    /// How many received bytes the driver has not read yet.
    pub fn pending_len(&self) -> (n: usize)
        ensures
            n == self.pending().len(),
    {
        self.incoming.len()
    }

    /// The word last written to the control register, zero before the first.
    pub fn last_control(&self) -> (control: UartControl)
        ensures
            control == self.control(),
    {
        self.control
    }
}

impl UartRegisters for Uart {
    closed spec fn accesses(&self) -> Seq<Access> {
        self.history@
    }

    /// Takes the oldest waiting byte; gives zero when none waits.
    fn read_rx(&mut self) -> (word: u32)
        ensures
            word == (if old(self).pending().len() > 0 {
                old(self).pending()[0] as u32
            } else {
                0u32
            }),
            final(self).pending() == (if old(self).pending().len() > 0 {
                old(self).pending().skip(1)
            } else {
                old(self).pending()
            }),
            final(self).sent() == old(self).sent(),
            final(self).flags() == old(self).flags(),
            final(self).control() == old(self).control(),
    {
        let word: u32 = match self.incoming.pop_front() {
            Some(byte) => byte as u32,
            None => 0,
        };
        proof {
            self.history@ = self.history@.push(Access::ReadRx(word));
        }
        word
    }

    /// Keeps the low byte of the word as the next byte sent.
    fn write_tx(&mut self, word: u32)
        ensures
            final(self).sent() == old(self).sent().push((word & 0xff) as u8),
            final(self).pending() == old(self).pending(),
            final(self).flags() == old(self).flags(),
            final(self).control() == old(self).control(),
    {
        let low: u32 = word & 0xff;
        assert(low < 256) by (bit_vector)
            requires
                low == word & 0xff,
        ;
        self.outgoing.push(low as u8);
        proof {
            self.history@ = self.history@.push(Access::WriteTx(word));
        }
    }

    /// Gives the flags, with bit 0 telling whether a received byte waits.
    fn read_status(&mut self) -> (status: UartStatus)
        ensures
            status.spec_raw_value() == old(self).status(),
            final(self).pending() == old(self).pending(),
            final(self).sent() == old(self).sent(),
            final(self).flags() == old(self).flags(),
            final(self).control() == old(self).control(),
    {
        let raw: u32 = if self.incoming.len() > 0 {
            self.flags | (1u32 << 0u32)
        } else {
            self.flags & !(1u32 << 0u32)
        };
        let status = UartStatus::new_with_raw_value(raw);
        proof {
            self.history@ = self.history@.push(Access::ReadStatus(status));
        }
        status
    }

    /// Keeps the word. With the receive-reset bit set, the receive queue is
    /// emptied and the three receive error flags are cleared.
    fn write_control(&mut self, control: UartControl)
        ensures
            final(self).control() == control,
            final(self).pending() == (if control.reset_rx() {
                Seq::<u8>::empty()
            } else {
                old(self).pending()
            }),
            final(self).flags() == (if control.reset_rx() {
                old(self).flags() & !RX_ERROR_FLAGS
            } else {
                old(self).flags()
            }),
            final(self).sent() == old(self).sent(),
    {
        self.control = control;
        if (control.raw_value() >> 1u32) & 1 == 1 {
            self.incoming.clear();
            self.flags = self.flags & !RX_ERROR_FLAGS;
        }
        proof {
            self.history@ = self.history@.push(Access::WriteControl(control));
        }
    }
}

} // verus!
