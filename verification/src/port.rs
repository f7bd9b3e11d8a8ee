//! The serial port driver: polling reads and writes on one UART block, with
//! the transmit FIFO's occupancy tracked in software.

use crate::uart::{Access, UartControl, UartRegisters, UartStatus};
use vstd::prelude::*;

verus! {

/// What a read can report besides data.
#[derive(Clone, Copy, PartialEq, Eq, Structural, Debug)]
pub enum Error {
    /// The device dropped received bytes because they were not read in time.
    Overrun,
}

/// The occupancy estimate once `status` has been seen: an empty transmit FIFO
/// is the one thing the device tells for certain, so it resets the estimate.
pub open spec fn resync(status: UartStatus, fifo_len: nat) -> nat {
    if status.tx_empty() {
        0
    } else {
        fifo_len
    }
}

/// The low byte of a register word: what a data register carries.
pub open spec fn low_byte(word: u32) -> u8 {
    (word & 0xff) as u8
}

/// The control word that pulses both reset lines and leaves interrupts off.
pub open spec fn reset_word() -> u32 {
    3
}

/// The status word that the access at position `at` of `log` read.
pub open spec fn status_at(log: Seq<Access>, at: int) -> UartStatus {
    log[at]->ReadStatus_0
}

/// The word that the access at position `at` of `log` read from the receive
/// register.
pub open spec fn word_at(log: Seq<Access>, at: int) -> u32 {
    log[at]->ReadRx_0
}

/// Position in the log of the status read that opens round `k` of a transfer
/// whose first access stands at `base`. A round is a status read followed by
/// one access to a data register.
pub open spec fn round(base: int, k: int) -> int {
    base + 2 * k
}

/// What `can_write` answers on seeing `status`.
pub open spec fn reports_room(status: UartStatus, fifo_len: nat, fifo_capacity: nat) -> bool {
    status.tx_empty() || fifo_len < fifo_capacity
}

/// Whether `try_write_byte` writes on seeing `status`.
pub open spec fn admits(status: UartStatus, fifo_len: nat, fifo_capacity: nat) -> bool {
    resync(status, fifo_len) < fifo_capacity
}

/// The occupancy estimate after the write path has made `accesses`, starting
/// from the estimate `fifo_len`: a status read resynchronises, a write to the
/// transmit register counts one byte.
pub open spec fn occupancy(accesses: Seq<Access>, fifo_len: nat) -> nat
    decreases accesses.len(),
{
    if accesses.len() == 0 {
        fifo_len
    } else {
        let earlier = occupancy(accesses.drop_last(), fifo_len);
        match accesses.last() {
            Access::ReadStatus(status) => resync(status, earlier),
            Access::WriteTx(_) => earlier + 1,
            _ => earlier,
        }
    }
}

/// The bytes that the device delivered in `accesses`: the low byte of each
/// word read from the receive register, oldest first.
pub open spec fn received(accesses: Seq<Access>) -> Seq<u8>
    decreases accesses.len(),
{
    if accesses.len() == 0 {
        Seq::empty()
    } else {
        let earlier = received(accesses.drop_last());
        match accesses.last() {
            Access::ReadRx(word) => earlier.push(low_byte(word)),
            _ => earlier,
        }
    }
}

/// The bytes that the driver sent in `accesses`: the low byte of each word
/// written to the transmit register, oldest first.
pub open spec fn transmitted(accesses: Seq<Access>) -> Seq<u8>
    decreases accesses.len(),
{
    if accesses.len() == 0 {
        Seq::empty()
    } else {
        let earlier = transmitted(accesses.drop_last());
        match accesses.last() {
            Access::WriteTx(word) => earlier.push(low_byte(word)),
            _ => earlier,
        }
    }
}

/// The accesses appended to a log of length `base` to reach `log`.
pub open spec fn appended(log: Seq<Access>, base: int) -> Seq<Access> {
    log.subrange(base, log.len() as int)
}

/// On a FIFO at least one byte deep, `can_write` answers "yes" exactly when
/// a `try_write_byte` that sees the same status word writes. It makes no
/// difference whether `can_write` was in fact asked first: the estimate that
/// it leaves behind admits the same.
pub proof fn lemma_can_write_agrees(status: UartStatus, fifo_len: nat, fifo_capacity: nat)
    requires
        fifo_capacity > 0,
    ensures
        reports_room(status, fifo_len, fifo_capacity) == admits(status, fifo_len, fifo_capacity),
        reports_room(status, fifo_len, fifo_capacity) == admits(
            status,
            resync(status, fifo_len),
            fifo_capacity,
        ),
{
}

/// A full estimate refuses a byte for as long as the device does not report
/// an empty transmit FIFO; once it does, the estimate falls to zero and a
/// FIFO at least one byte deep takes the next.
pub proof fn lemma_full_until_empty(status: UartStatus, fifo_capacity: nat)
    ensures
        !status.tx_empty() ==> !admits(status, fifo_capacity, fifo_capacity),
        status.tx_empty() ==> resync(status, fifo_capacity) == 0,
        status.tx_empty() && fifo_capacity > 0 ==> admits(status, fifo_capacity, fifo_capacity),
{
}

/// What one more access adds to the bytes delivered, the bytes sent and the
/// occupancy estimate.
pub proof fn lemma_one_more(accesses: Seq<Access>, access: Access, fifo_len: nat)
    ensures
        received(accesses.push(access)) == (match access {
            Access::ReadRx(word) => received(accesses).push(low_byte(word)),
            _ => received(accesses),
        }),
        transmitted(accesses.push(access)) == (match access {
            Access::WriteTx(word) => transmitted(accesses).push(low_byte(word)),
            _ => transmitted(accesses),
        }),
        occupancy(accesses.push(access), fifo_len) == (match access {
            Access::ReadStatus(status) => resync(status, occupancy(accesses, fifo_len)),
            Access::WriteTx(_) => occupancy(accesses, fifo_len) + 1,
            _ => occupancy(accesses, fifo_len),
        }),
{
    assert(accesses.push(access).drop_last() =~= accesses);
    assert(accesses.push(access).last() == access);
}

/// The bytes delivered over a stretch of the log are those of its first part
/// followed by those of the rest.
pub proof fn lemma_received_split(log: Seq<Access>, from: int, mid: int)
    requires
        0 <= from <= mid <= log.len(),
    ensures
        received(appended(log, from)) == received(log.subrange(from, mid)) + received(
            appended(log, mid),
        ),
    decreases log.len() - mid,
{
    if mid == log.len() {
        assert(appended(log, mid) =~= Seq::<Access>::empty());
        assert(log.subrange(from, mid) =~= appended(log, from));
        assert(received(appended(log, from)) + Seq::<u8>::empty() =~= received(
            appended(log, from),
        ));
    } else {
        let shorter = log.drop_last();
        lemma_received_split(shorter, from, mid);
        assert(shorter.subrange(from, mid) =~= log.subrange(from, mid));
        assert(appended(log, from).drop_last() =~= appended(shorter, from));
        assert(appended(log, mid).drop_last() =~= appended(shorter, mid));
        assert(appended(log, from).last() == log.last());
        assert(appended(log, mid).last() == log.last());
        let head = received(log.subrange(from, mid));
        let tail = received(appended(shorter, mid));
        match log.last() {
            Access::ReadRx(word) => {
                assert((head + tail).push(low_byte(word)) =~= head + tail.push(low_byte(word)));
            },
            _ => {},
        }
    }
}

/// The bytes sent over a stretch of the log are those of its first part
/// followed by those of the rest.
pub proof fn lemma_transmitted_split(log: Seq<Access>, from: int, mid: int)
    requires
        0 <= from <= mid <= log.len(),
    ensures
        transmitted(appended(log, from)) == transmitted(log.subrange(from, mid)) + transmitted(
            appended(log, mid),
        ),
    decreases log.len() - mid,
{
    if mid == log.len() {
        assert(appended(log, mid) =~= Seq::<Access>::empty());
        assert(log.subrange(from, mid) =~= appended(log, from));
        assert(transmitted(appended(log, from)) + Seq::<u8>::empty() =~= transmitted(
            appended(log, from),
        ));
    } else {
        let shorter = log.drop_last();
        lemma_transmitted_split(shorter, from, mid);
        assert(shorter.subrange(from, mid) =~= log.subrange(from, mid));
        assert(appended(log, from).drop_last() =~= appended(shorter, from));
        assert(appended(log, mid).drop_last() =~= appended(shorter, mid));
        assert(appended(log, from).last() == log.last());
        assert(appended(log, mid).last() == log.last());
        let head = transmitted(log.subrange(from, mid));
        let tail = transmitted(appended(shorter, mid));
        match log.last() {
            Access::WriteTx(word) => {
                assert((head + tail).push(low_byte(word)) =~= head + tail.push(low_byte(word)));
            },
            _ => {},
        }
    }
}

/// The occupancy estimate after a stretch of the log is the one reached by
/// replaying its first part and then the rest.
pub proof fn lemma_occupancy_split(log: Seq<Access>, from: int, mid: int, fifo_len: nat)
    requires
        0 <= from <= mid <= log.len(),
    ensures
        occupancy(appended(log, from), fifo_len) == occupancy(
            appended(log, mid),
            occupancy(log.subrange(from, mid), fifo_len),
        ),
    decreases log.len() - mid,
{
    if mid == log.len() {
        assert(appended(log, mid) =~= Seq::<Access>::empty());
        assert(log.subrange(from, mid) =~= appended(log, from));
    } else {
        let shorter = log.drop_last();
        lemma_occupancy_split(shorter, from, mid, fifo_len);
        assert(shorter.subrange(from, mid) =~= log.subrange(from, mid));
        assert(appended(log, from).drop_last() =~= appended(shorter, from));
        assert(appended(log, mid).drop_last() =~= appended(shorter, mid));
        assert(appended(log, from).last() == log.last());
        assert(appended(log, mid).last() == log.last());
    }
}

/// A byte widened to a register word and narrowed again is the same byte.
pub proof fn lemma_low_byte_of_byte(byte: u8)
    ensures
        low_byte(byte as u32) == byte,
{
    assert((byte as u32) & 0xff == byte as u32) by (bit_vector);
}

/// The accesses of a `read` that filled `n` of `len` places: `n` rounds, each
/// a status read that showed "receive not empty" and then a read of the
/// receive register; and, if places were left, one more status read that
/// showed no data.
pub open spec fn read_trace(before: Seq<Access>, after: Seq<Access>, n: int, len: int) -> bool {
    let base = before.len() as int;
    &&& 0 <= n <= len
    &&& before.is_prefix_of(after)
    &&& after.len() == base + 2 * n + (if n < len {
        1int
    } else {
        0int
    })
    &&& forall|k: int|
        0 <= k < n ==> {
            &&& (#[trigger] after[round(base, k)]) is ReadStatus
            &&& status_at(after, round(base, k)).rx_not_empty()
            &&& after[round(base, k) + 1] is ReadRx
        }
    &&& n < len ==> {
        &&& after[round(base, n)] is ReadStatus
        &&& !status_at(after, round(base, n)).rx_not_empty()
    }
}

/// What a `read` that filled `n` places leaves behind: the accesses of
/// `read_trace`, in each filled place the low byte of the word its round read,
/// and every other place as it was.
pub open spec fn read_outcome(
    before: Seq<Access>,
    after: Seq<Access>,
    old_buf: Seq<u8>,
    new_buf: Seq<u8>,
    n: int,
) -> bool {
    &&& new_buf.len() == old_buf.len()
    &&& read_trace(before, after, n, old_buf.len() as int)
    &&& forall|k: int|
        0 <= k < n ==> #[trigger] new_buf[k] == low_byte(
            word_at(after, round(before.len() as int, k) + 1),
        )
    &&& forall|k: int| n <= k < old_buf.len() ==> new_buf[k] == old_buf[k]
}

/// The accesses of a `write` that sent the first `n` bytes of `data`: `n`
/// rounds, each a status read that admitted the byte and then the write of
/// that byte to the transmit register; and, if bytes were left, one more
/// status read that did not admit the next.
pub open spec fn write_trace(
    before: Seq<Access>,
    after: Seq<Access>,
    data: Seq<u8>,
    n: int,
    fifo_len: nat,
    fifo_capacity: nat,
) -> bool {
    let base = before.len() as int;
    &&& 0 <= n <= data.len()
    &&& before.is_prefix_of(after)
    &&& after.len() == base + 2 * n + (if n < data.len() {
        1int
    } else {
        0int
    })
    &&& forall|k: int|
        0 <= k < n ==> {
            &&& (#[trigger] after[round(base, k)]) is ReadStatus
            &&& admits(
                status_at(after, round(base, k)),
                occupancy(after.subrange(base, round(base, k)), fifo_len),
                fifo_capacity,
            )
            &&& after[round(base, k) + 1] == Access::WriteTx(data[k] as u32)
        }
    &&& n < data.len() ==> {
        &&& after[round(base, n)] is ReadStatus
        &&& !admits(
            status_at(after, round(base, n)),
            occupancy(after.subrange(base, round(base, n)), fifo_len),
            fifo_capacity,
        )
    }
}

/// The accesses and the answer of a `poll_read` into `len` places. With no
/// place, nothing is touched and the answer is `Ok(Some(0))`. Else the status
/// register is read: without "receive not empty" the answer is `Ok(None)`.
/// With it the status register is read again: a set overrun flag gives
/// `Err(Overrun)`, else the accesses of a `read` follow and the answer tells
/// how many places it filled.
pub open spec fn poll_read_trace(
    before: Seq<Access>,
    after: Seq<Access>,
    len: int,
    outcome: Result<Option<usize>, Error>,
) -> bool {
    let base = before.len() as int;
    if len == 0 {
        after == before && outcome == Ok::<Option<usize>, Error>(Some(0usize))
    } else {
        &&& before.is_prefix_of(after)
        &&& after.len() > base
        &&& after[base] is ReadStatus
        &&& if !status_at(after, base).rx_not_empty() {
            after.len() == base + 1 && outcome == Ok::<Option<usize>, Error>(None)
        } else {
            &&& after.len() >= base + 2
            &&& after[base + 1] is ReadStatus
            &&& if status_at(after, base + 1).overrun_error() {
                after.len() == base + 2 && outcome == Err::<Option<usize>, Error>(Error::Overrun)
            } else {
                outcome matches Ok(Some(n)) && read_trace(after.take(base + 2), after, n as int, len)
            }
        }
    }
}

/// The accesses and the answer of a `poll_write` of `data`, made with the
/// occupancy estimate at `fifo_len`. With no data, nothing is touched and the
/// answer is `Some(0)`. Else the status register is read: if it reports no
/// room the answer is `None`, else the accesses of a `write` follow and the
/// answer tells how many bytes it sent.
pub open spec fn poll_write_trace(
    before: Seq<Access>,
    after: Seq<Access>,
    data: Seq<u8>,
    fifo_len: nat,
    fifo_capacity: nat,
    outcome: Option<usize>,
) -> bool {
    let base = before.len() as int;
    if data.len() == 0 {
        after == before && outcome == Some(0usize)
    } else {
        &&& before.is_prefix_of(after)
        &&& after.len() > base
        &&& after[base] is ReadStatus
        &&& if !reports_room(status_at(after, base), fifo_len, fifo_capacity) {
            after.len() == base + 1 && outcome is None
        } else {
            outcome matches Some(n) && write_trace(
                after.take(base + 1),
                after,
                data,
                n as int,
                resync(status_at(after, base), fifo_len),
                fifo_capacity,
            )
        }
    }
}

/// The software estimate of how many bytes sit in a transmit FIFO of known
/// depth. The estimate never exceeds the depth.
struct TxFifo {
    capacity: usize,
    len: usize,
}

impl TxFifo {
    #[verifier::type_invariant]
    spec fn well_formed(&self) -> bool {
        self.len <= self.capacity
    }

    /// Depth of the FIFO.
    closed spec fn depth(&self) -> usize {
        self.capacity
    }

    /// The estimate, which the depth bounds.
    closed spec fn estimate(&self) -> usize {
        if self.len <= self.capacity {
            self.len
        } else {
            self.capacity
        }
    }

    /// The estimate never exceeds the depth.
    proof fn lemma_bounded(&self)
        ensures
            self.estimate() <= self.depth(),
    {
    }

    fn new(capacity: usize) -> (fifo: Self)
        ensures
            fifo.depth() == capacity,
            fifo.estimate() == 0,
    {
        TxFifo { capacity, len: 0 }
    }

    fn capacity(&self) -> (n: usize)
        ensures
            n == self.depth(),
    {
        self.capacity
    }

    fn len(&self) -> (n: usize)
        ensures
            n == self.estimate(),
    {
        proof {
            use_type_invariant(self);
        }
        self.len
    }

    /// Takes note of a status word.
    fn observe(&mut self, status: UartStatus)
        ensures
            final(self).depth() == old(self).depth(),
            final(self).estimate() == resync(status, old(self).estimate() as nat),
    {
        proof {
            use_type_invariant(&*self);
        }
        if status.tx_empty() {
            self.len = 0;
        }
    }

    /// Counts one more byte if the FIFO has room for it, and says whether it
    /// had.
    fn take_slot(&mut self) -> (room: bool)
        ensures
            final(self).depth() == old(self).depth(),
            room == (old(self).estimate() < old(self).depth()),
            final(self).estimate() == (if room {
                old(self).estimate() + 1
            } else {
                old(self).estimate() as int
            }),
    {
        proof {
            use_type_invariant(&*self);
        }
        if self.len < self.capacity {
            self.len = self.len + 1;
            true
        } else {
            false
        }
    }
}

/// A serial port: one UART block and the software estimate of how many bytes
/// sit in its transmit FIFO.
pub struct UartPort<D: UartRegisters> {
    uart: D,
    fifo: TxFifo,
}

impl<D: UartRegisters> UartPort<D> {
    /// The register block this port drives.
    pub closed spec fn uart(&self) -> D {
        self.uart
    }

    /// Every access made to the block through its handle, oldest first: the
    /// handle's own record, to which the port can add only by an access.
    pub open spec fn log(&self) -> Seq<Access> {
        self.uart().accesses()
    }

    /// Depth of the transmit FIFO, as given at construction.
    pub closed spec fn spec_fifo_capacity(&self) -> usize {
        self.fifo.depth()
    }

    /// The software estimate of the transmit FIFO's occupancy.
    pub closed spec fn spec_fifo_len(&self) -> usize {
        self.fifo.estimate()
    }

    /// The estimate never exceeds the depth.
    pub proof fn lemma_fifo_len_bounded(&self)
        ensures
            self.fifo_len() <= self.fifo_capacity(),
    {
        self.fifo.lemma_bounded();
    }

    /// A port on `uart` whose transmit FIFO holds `fifo_capacity` bytes. No
    /// register is touched.
    pub fn new(uart: D, fifo_capacity: usize) -> (port: Self)
        ensures
            port.uart() == uart,
            port.spec_fifo_capacity() == fifo_capacity,
            port.spec_fifo_len() == 0,
    {
        UartPort { uart, fifo: TxFifo::new(fifo_capacity) }
    }

    /// Depth of the transmit FIFO, as given at construction.
    #[verifier::when_used_as_spec(spec_fifo_capacity)]
    pub fn fifo_capacity(&self) -> (n: usize)
        ensures
            n == self.spec_fifo_capacity(),
    {
        self.fifo.capacity()
    }

    /// The software estimate of the transmit FIFO's occupancy.
    #[verifier::when_used_as_spec(spec_fifo_len)]
    pub fn fifo_len(&self) -> (n: usize)
        ensures
            n == self.spec_fifo_len(),
            n <= self.spec_fifo_capacity(),
    {
        proof {
            self.fifo.lemma_bounded();
        }
        self.fifo.len()
    }

    /// Pulses the receive and transmit resets, with interrupts disabled.
    pub fn init(&mut self)
        ensures
            final(self).log() == old(self).log().push(
                Access::WriteControl(UartControl { raw: reset_word() }),
            ),
            final(self).fifo_capacity() == old(self).fifo_capacity(),
            final(self).fifo_len() == old(self).fifo_len(),
    {
        let control = UartControl::zero().with_interrupts(false).with_reset_rx(true).with_reset_tx(
            true,
        );
        assert(((0u32 & !(1u32 << 4u32)) | (1u32 << 1u32)) | (1u32 << 0u32) == 3) by (bit_vector);
        self.uart.write_control(control);
    }

    /// Pulses the receive and transmit resets.
    pub fn clear(&mut self)
        ensures
            final(self).log() == old(self).log().push(
                Access::WriteControl(UartControl { raw: reset_word() }),
            ),
            final(self).fifo_capacity() == old(self).fifo_capacity(),
            final(self).fifo_len() == old(self).fifo_len(),
    {
        let control = UartControl::zero().with_reset_rx(true).with_reset_tx(true);
        assert((0u32 | (1u32 << 1u32)) | (1u32 << 0u32) == 3) by (bit_vector);
        self.uart.write_control(control);
    }

    /// The register block itself, for accesses the port does not offer. They
    /// go into the log like the port's own; the occupancy estimate takes no
    /// note of them.
    pub fn uart_mut(&mut self) -> (uart: &mut D)
        ensures
            *uart == old(self).uart(),
            final(self).uart() == *final(uart),
            final(self).fifo_capacity() == old(self).fifo_capacity(),
            final(self).fifo_len() == old(self).fifo_len(),
    {
        &mut self.uart
    }

    /// Whether the device reports a received byte. Reads the status register
    /// once.
    pub fn has_data(&mut self) -> (ready: bool)
        ensures
            final(self).log() == old(self).log().push(
                Access::ReadStatus(status_at(final(self).log(), old(self).log().len() as int)),
            ),
            ready == status_at(final(self).log(), old(self).log().len() as int).rx_not_empty(),
            final(self).fifo_capacity() == old(self).fifo_capacity(),
            final(self).fifo_len() == old(self).fifo_len(),
    {
        self.uart.read_status().rx_not_empty()
    }

    /// Takes one received byte, if the device reports any: reads the status
    /// register, and the receive register only when "receive not empty" is
    /// set. The byte is the low byte of the word read.
    pub fn read_byte(&mut self) -> (byte: Option<u8>)
        ensures
            old(self).log().is_prefix_of(final(self).log()),
            final(self).log()[old(self).log().len() as int] is ReadStatus,
            byte is Some == status_at(
                final(self).log(),
                old(self).log().len() as int,
            ).rx_not_empty(),
            byte is None ==> final(self).log().len() == old(self).log().len() + 1,
            byte is Some ==> {
                &&& final(self).log().len() == old(self).log().len() + 2
                &&& final(self).log().last() is ReadRx
                &&& byte->0 == low_byte(word_at(final(self).log(), old(self).log().len() as int + 1))
            },
            final(self).fifo_capacity() == old(self).fifo_capacity(),
            final(self).fifo_len() == old(self).fifo_len(),
    {
        if self.has_data() {
            let word = self.uart.read_rx();
            let low: u32 = word & 0xff;
            assert(low < 256) by (bit_vector)
                requires
                    low == word & 0xff,
            ;
            Some(low as u8)
        } else {
            None
        }
    }

    /// Whether a byte could be written now. Reads the status register once and
    /// resynchronises the estimate with it; the answer is "transmit empty, or
    /// the estimate was below the depth".
    pub fn can_write(&mut self) -> (ready: bool)
        ensures
            final(self).log() == old(self).log().push(
                Access::ReadStatus(status_at(final(self).log(), old(self).log().len() as int)),
            ),
            ready == reports_room(
                status_at(final(self).log(), old(self).log().len() as int),
                old(self).fifo_len() as nat,
                old(self).fifo_capacity() as nat,
            ),
            final(self).fifo_capacity() == old(self).fifo_capacity(),
            final(self).fifo_len() == resync(
                status_at(final(self).log(), old(self).log().len() as int),
                old(self).fifo_len() as nat,
            ),
    {
        let status = self.uart.read_status();
        let below = self.fifo.len() < self.fifo.capacity();
        self.fifo.observe(status);
        status.tx_empty() || below
    }

    /// Writes one byte if the transmit FIFO has room by the estimate. Reads the
    /// status register once and resynchronises the estimate with it; then,
    /// if the estimate is below the depth, writes the byte to the transmit
    /// register, counts it and returns `true`. Otherwise the transmit register
    /// is not touched.
    pub fn try_write_byte(&mut self, byte: u8) -> (written: bool)
        ensures
            old(self).log().is_prefix_of(final(self).log()),
            final(self).log()[old(self).log().len() as int] is ReadStatus,
            written == admits(
                status_at(final(self).log(), old(self).log().len() as int),
                old(self).fifo_len() as nat,
                old(self).fifo_capacity() as nat,
            ),
            !written ==> final(self).log().len() == old(self).log().len() + 1,
            written ==> {
                &&& final(self).log().len() == old(self).log().len() + 2
                &&& final(self).log().last() == Access::WriteTx(byte as u32)
            },
            final(self).fifo_capacity() == old(self).fifo_capacity(),
            final(self).fifo_len() == resync(
                status_at(final(self).log(), old(self).log().len() as int),
                old(self).fifo_len() as nat,
            ) + (if written {
                1nat
            } else {
                0nat
            }),
    {
        let status = self.uart.read_status();
        self.fifo.observe(status);
        if self.fifo.take_slot() {
            self.uart.write_tx(byte as u32);
            true
        } else {
            false
        }
    }

    /// Fills `buf` from the front with the bytes the device has, one
    /// `read_byte` per place, and stops at the first place for which there is
    /// none. Returns how many places were filled; the rest of `buf` is left as
    /// it was. Never waits.
    pub fn read(&mut self, buf: &mut [u8]) -> (n: usize)
        ensures
            read_outcome(old(self).log(), final(self).log(), old(buf)@, final(buf)@, n as int),
            received(appended(final(self).log(), old(self).log().len() as int)) == final(buf)@.take(
                n as int,
            ),
            final(self).fifo_capacity() == old(self).fifo_capacity(),
            final(self).fifo_len() == old(self).fifo_len(),
    {
        let ghost before = self.log();
        let ghost base = before.len() as int;
        let len = buf.len();
        let mut i: usize = 0;
        proof {
            assert(appended(self.log(), base) =~= Seq::<Access>::empty());
            assert(buf@.take(0) =~= Seq::<u8>::empty());
        }
        while i < len
            invariant
                i <= len,
                len == buf@.len() == old(buf)@.len(),
                before == old(self).log(),
                base == before.len(),
                before.is_prefix_of(self.log()),
                self.log().len() == base + 2 * i,
                forall|k: int|
                    0 <= k < i ==> {
                        &&& (#[trigger] self.log()[round(base, k)]) is ReadStatus
                        &&& status_at(self.log(), round(base, k)).rx_not_empty()
                        &&& self.log()[round(base, k) + 1] is ReadRx
                    },
                forall|k: int|
                    0 <= k < i ==> #[trigger] buf@[k] == low_byte(
                        word_at(self.log(), round(base, k) + 1),
                    ),
                forall|k: int| i <= k < len ==> buf@[k] == old(buf)@[k],
                received(appended(self.log(), base)) == buf@.take(i as int),
                self.fifo_capacity() == old(self).fifo_capacity(),
                self.fifo_len() == old(self).fifo_len(),
            decreases len - i,
        {
            let ghost earlier = self.log();
            let ghost filled = buf@.take(i as int);
            match self.read_byte() {
                Some(byte) => {
                    buf[i] = byte;
                    proof {
                        let now = self.log();
                        let polled = now.subrange(base, base + 2 * i + 1);
                        assert(polled.drop_last() =~= appended(earlier, base));
                        assert(polled.last() == now[base + 2 * i]);
                        assert(appended(now, base).drop_last() =~= polled);
                        assert(appended(now, base).last() == now[base + 2 * i + 1]);
                        assert(received(polled) == received(appended(earlier, base)));
                        assert(received(appended(now, base)) == received(polled).push(byte));
                        assert(buf@.take(i + 1) =~= filled.push(byte));
                    }
                },
                None => {
                    proof {
                        let now = self.log();
                        assert(appended(now, base).drop_last() =~= appended(earlier, base));
                        assert(appended(now, base).last() == now[base + 2 * i]);
                    }
                    assert forall|k: int| 0 <= k < i implies {
                        &&& (#[trigger] self.log()[round(base, k)]) is ReadStatus
                        &&& status_at(self.log(), round(base, k)).rx_not_empty()
                        &&& self.log()[round(base, k) + 1] is ReadRx
                        &&& buf@[k] == low_byte(word_at(self.log(), round(base, k) + 1))
                    } by {
                        assert(self.log()[round(base, k)] == earlier[round(base, k)]);
                        assert(self.log()[round(base, k) + 1] == earlier[round(base, k) + 1]);
                    }
                    return i;
                },
            }
            assert forall|k: int| 0 <= k < i + 1 implies {
                &&& (#[trigger] self.log()[round(base, k)]) is ReadStatus
                &&& status_at(self.log(), round(base, k)).rx_not_empty()
                &&& self.log()[round(base, k) + 1] is ReadRx
                &&& buf@[k] == low_byte(word_at(self.log(), round(base, k) + 1))
            } by {
                if k < i {
                    assert(self.log()[round(base, k)] == earlier[round(base, k)]);
                    assert(self.log()[round(base, k) + 1] == earlier[round(base, k) + 1]);
                }
            }
            i = i + 1;
        }
        len
    }

    /// Sends the bytes of `buf` in order, one `try_write_byte` each, and stops
    /// at the first that is not admitted. Returns how many were sent. Never
    /// waits.
    pub fn write(&mut self, buf: &[u8]) -> (n: usize)
        ensures
            write_trace(
                old(self).log(),
                final(self).log(),
                buf@,
                n as int,
                old(self).fifo_len() as nat,
                old(self).fifo_capacity() as nat,
            ),
            final(self).fifo_capacity() == old(self).fifo_capacity(),
            final(self).fifo_len() == occupancy(
                appended(final(self).log(), old(self).log().len() as int),
                old(self).fifo_len() as nat,
            ),
            transmitted(appended(final(self).log(), old(self).log().len() as int)) == buf@.take(
                n as int,
            ),
    {
        let ghost before = self.log();
        let ghost base = before.len() as int;
        let ghost start = self.fifo_len() as nat;
        let ghost cap = self.fifo_capacity() as nat;
        let len = buf.len();
        let mut i: usize = 0;
        proof {
            assert(self.log().subrange(base, base) =~= Seq::<Access>::empty());
            assert(buf@.take(0) =~= Seq::<u8>::empty());
        }
        while i < len
            invariant
                i <= len,
                len == buf@.len(),
                before == old(self).log(),
                base == before.len(),
                start == old(self).fifo_len(),
                cap == old(self).fifo_capacity() == self.fifo_capacity(),
                before.is_prefix_of(self.log()),
                self.log().len() == base + 2 * i,
                self.fifo_len() == occupancy(self.log().subrange(base, base + 2 * i), start),
                transmitted(self.log().subrange(base, base + 2 * i)) == buf@.take(i as int),
                forall|k: int|
                    0 <= k < i ==> {
                        &&& (#[trigger] self.log()[round(base, k)]) is ReadStatus
                        &&& admits(
                            status_at(self.log(), round(base, k)),
                            occupancy(self.log().subrange(base, round(base, k)), start),
                            cap,
                        )
                        &&& self.log()[round(base, k) + 1] == Access::WriteTx(buf@[k] as u32)
                    },
            decreases len - i,
        {
            let ghost earlier = self.log();
            let written = self.try_write_byte(buf[i]);
            proof {
                let now = self.log();
                assert(now.subrange(base, base + 2 * i) =~= earlier.subrange(base, base + 2 * i));
                assert(now.subrange(base, base + 2 * i + 1).drop_last() =~= now.subrange(
                    base,
                    base + 2 * i,
                ));
                assert forall|k: int| 0 <= k < i implies {
                    &&& (#[trigger] now[round(base, k)]) is ReadStatus
                    &&& admits(
                        status_at(now, round(base, k)),
                        occupancy(now.subrange(base, round(base, k)), start),
                        cap,
                    )
                    &&& now[round(base, k) + 1] == Access::WriteTx(buf@[k] as u32)
                } by {
                    assert(now[round(base, k)] == earlier[round(base, k)]);
                    assert(now[round(base, k) + 1] == earlier[round(base, k) + 1]);
                    assert(now.subrange(base, round(base, k)) =~= earlier.subrange(
                        base,
                        round(base, k),
                    ));
                }
                let polled = now.subrange(base, base + 2 * i + 1);
                assert(polled.last() == now[base + 2 * i]);
                assert(occupancy(polled, start) == resync(
                    status_at(now, base + 2 * i),
                    occupancy(now.subrange(base, base + 2 * i), start),
                ));
                assert(transmitted(polled) == transmitted(now.subrange(base, base + 2 * i)));
                if written {
                    let sent = now.subrange(base, base + 2 * i + 2);
                    assert(sent.drop_last() =~= polled);
                    assert(sent.last() == now[base + 2 * i + 1]);
                    assert(occupancy(sent, start) == occupancy(polled, start) + 1);
                    lemma_low_byte_of_byte(buf@[i as int]);
                    assert(transmitted(sent) == transmitted(polled).push(buf@[i as int]));
                    assert(buf@.take(i + 1) =~= buf@.take(i as int).push(buf@[i as int]));
                }
            }
            if !written {
                return i;
            }
            i = i + 1;
        }
        len
    }

    /// Whether a read would find data: `has_data`, which cannot fail.
    pub fn read_ready(&mut self) -> (ready: Result<bool, Error>)
        ensures
            final(self).log() == old(self).log().push(
                Access::ReadStatus(status_at(final(self).log(), old(self).log().len() as int)),
            ),
            ready == Ok::<bool, Error>(
                status_at(final(self).log(), old(self).log().len() as int).rx_not_empty(),
            ),
            final(self).fifo_capacity() == old(self).fifo_capacity(),
            final(self).fifo_len() == old(self).fifo_len(),
    {
        Ok(self.has_data())
    }

    /// Whether a write would be admitted: `can_write`, which cannot fail.
    pub fn write_ready(&mut self) -> (ready: Result<bool, Error>)
        ensures
            final(self).log() == old(self).log().push(
                Access::ReadStatus(status_at(final(self).log(), old(self).log().len() as int)),
            ),
            ready == Ok::<bool, Error>(
                reports_room(
                    status_at(final(self).log(), old(self).log().len() as int),
                    old(self).fifo_len() as nat,
                    old(self).fifo_capacity() as nat,
                ),
            ),
            final(self).fifo_capacity() == old(self).fifo_capacity(),
            final(self).fifo_len() == resync(
                status_at(final(self).log(), old(self).log().len() as int),
                old(self).fifo_len() as nat,
            ),
    {
        Ok(self.can_write())
    }

    /// Nothing is held back in software, so there is nothing to flush.
    pub fn flush(&mut self) -> (done: Result<(), Error>)
        ensures
            done == Ok::<(), Error>(()),
            *final(self) == *old(self),
    {
        Ok(())
    }

    /// One step of a waiting read. With an empty `buf` the answer is
    /// `Ok(Some(0))` and no register is touched. Otherwise the status register
    /// is read: without "receive not empty" the answer is `Ok(None)`, and the
    /// caller is to come back later. With it, the status register is read
    /// again: a set overrun flag gives `Err(Overrun)` and no data is taken,
    /// else `read` fills `buf` and `Ok(Some(n))` tells how many places.
    pub fn poll_read(&mut self, buf: &mut [u8]) -> (outcome: Result<Option<usize>, Error>)
        ensures
            final(buf)@.len() == old(buf)@.len(),
            poll_read_trace(
                old(self).log(),
                final(self).log(),
                old(buf)@.len() as int,
                outcome,
            ),
            outcome matches Ok(Some(n)) ==> received(
                appended(final(self).log(), old(self).log().len() as int),
            ) == final(buf)@.take(n as int) && forall|k: int|
                n <= k < old(buf)@.len() ==> final(buf)@[k] == old(buf)@[k],
            !(outcome matches Ok(Some(_))) ==> final(buf)@ == old(buf)@ && received(
                appended(final(self).log(), old(self).log().len() as int),
            ) == Seq::<u8>::empty(),
            final(self).fifo_capacity() == old(self).fifo_capacity(),
            final(self).fifo_len() == old(self).fifo_len(),
    {
        let ghost base = self.log().len() as int;
        proof {
            assert(appended(self.log(), base) =~= Seq::<Access>::empty());
            assert(buf@.take(0) =~= Seq::<u8>::empty());
        }
        if buf.len() == 0 {
            return Ok(Some(0));
        }
        let ghost nothing = Seq::<Access>::empty();
        let ready = self.has_data();
        let ghost first = self.log();
        proof {
            assert(appended(first, base) =~= nothing.push(first[base]));
            lemma_one_more(nothing, first[base], 0);
        }
        if !ready {
            return Ok(None);
        }
        let overrun = self.uart.read_status().overrun_error();
        let ghost polled = self.log();
        proof {
            assert(appended(polled, base) =~= appended(first, base).push(polled[base + 1]));
            lemma_one_more(appended(first, base), polled[base + 1], 0);
        }
        if overrun {
            return Err(Error::Overrun);
        }
        let n = self.read(buf);
        proof {
            let log = self.log();
            assert(log.take(base + 2) =~= polled);
            assert(log[base] == polled[base]);
            assert(log[base + 1] == polled[base + 1]);
            lemma_received_split(log, base, base + 2);
            assert(log.subrange(base, base + 2) =~= appended(polled, base));
        }
        Ok(Some(n))
    }

    /// One step of a waiting write. With an empty `buf` the answer is
    /// `Some(0)` and no register is touched. Otherwise `can_write` is asked:
    /// on "no" the answer is `None`, and the caller is to come back later; on
    /// "yes" `write` sends what is admitted and `Some(n)` tells how many
    /// bytes.
    pub fn poll_write(&mut self, buf: &[u8]) -> (outcome: Option<usize>)
        ensures
            poll_write_trace(
                old(self).log(),
                final(self).log(),
                buf@,
                old(self).fifo_len() as nat,
                old(self).fifo_capacity() as nat,
                outcome,
            ),
            final(self).fifo_capacity() == old(self).fifo_capacity(),
            final(self).fifo_len() == occupancy(
                appended(final(self).log(), old(self).log().len() as int),
                old(self).fifo_len() as nat,
            ),
            transmitted(appended(final(self).log(), old(self).log().len() as int)) == (
            match outcome {
                Some(n) => buf@.take(n as int),
                None => Seq::<u8>::empty(),
            }),
    {
        let ghost base = self.log().len() as int;
        let ghost start = self.fifo_len() as nat;
        proof {
            assert(appended(self.log(), base) =~= Seq::<Access>::empty());
            assert(buf@.take(0) =~= Seq::<u8>::empty());
        }
        if buf.len() == 0 {
            return Some(0);
        }
        let ghost nothing = Seq::<Access>::empty();
        let ready = self.can_write();
        let ghost polled = self.log();
        proof {
            assert(appended(polled, base) =~= nothing.push(polled[base]));
            lemma_one_more(nothing, polled[base], start);
        }
        if !ready {
            return None;
        }
        let n = self.write(buf);
        proof {
            let log = self.log();
            assert(log.take(base + 1) =~= polled);
            assert(log[base] == polled[base]);
            assert(log.subrange(base, base + 1) =~= appended(polled, base));
            lemma_transmitted_split(log, base, base + 1);
            lemma_occupancy_split(log, base, base + 1, start);
        }
        Some(n)
    }
}

} // verus!
