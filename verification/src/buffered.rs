//! The buffered serial port: a serial port behind a byte ring, read through a
//! fill-then-consume interface that hands out the ring's own storage.

use crate::port::{
    appended, poll_read_trace, poll_write_trace, received, reports_room, resync, status_at,
    transmitted, occupancy, Error, UartPort,
};
use crate::ring::{wrap, RingBuffer};
use crate::uart::{Access, UartControl, UartRegisters};
use vstd::prelude::*;

verus! {

/// How many bytes a read into `places` places takes from a run of `run`
/// bytes: the smaller of the two.
pub open spec fn served(run: nat, places: nat) -> nat {
    if run < places {
        run
    } else {
        places
    }
}

/// A serial port whose received bytes pass through a ring. The ring alone says
/// which bytes are unread; the port is asked for more only when it is empty.
pub struct BufferedUartPort<D: UartRegisters> {
    inner: UartPort<D>,
    buf: RingBuffer,
    delivered: Ghost<Seq<u8>>,
    consumed: Ghost<Seq<u8>>,
}

impl<D: UartRegisters> BufferedUartPort<D> {
    /// The serial port underneath.
    pub closed spec fn inner(&self) -> UartPort<D> {
        self.inner
    }

    /// The ring between the port and the reader.
    pub closed spec fn ring(&self) -> RingBuffer {
        self.buf
    }

    /// Every byte that `poll_fill` and `poll_read` have taken from the
    /// device, oldest first.
    pub closed spec fn delivered(&self) -> Seq<u8> {
        self.delivered@
    }

    /// Every byte that `consume` has released or `poll_read` has handed out,
    /// oldest first.
    pub closed spec fn consumed(&self) -> Seq<u8> {
        self.consumed@
    }

    /// The bytes taken from the device and not yet consumed, oldest first.
    pub open spec fn buffered(&self) -> Seq<u8> {
        self.ring()@
    }

    /// Every access made to the block so far, oldest first.
    pub open spec fn log(&self) -> Seq<Access> {
        self.inner().log()
    }

    /// The run that `poll_fill` hands out while bytes are buffered: the unread
    /// bytes up to the point where the ring's storage wraps.
    pub open spec fn next_run(&self) -> Seq<u8> {
        self.buffered().take(self.ring().pop_len() as int)
    }

    /// The ring is well formed, and what was consumed, followed by what is
    /// buffered, is what the device delivered.
    pub closed spec fn wf(&self) -> bool {
        &&& self.buf.wf()
        &&& self.consumed@ + self.buf@ == self.delivered@
    }

    /// No byte is lost, duplicated or reordered on its way through the ring:
    /// the bytes consumed so far, followed by the bytes still buffered, are
    /// the bytes delivered by the device, in the order of their delivery.
    pub proof fn lemma_in_order(&self)
        requires
            self.wf(),
        ensures
            self.ring().wf(),
            self.consumed() + self.buffered() == self.delivered(),
            self.consumed().is_prefix_of(self.delivered()),
    {
        assert((self.consumed() + self.buffered()).subrange(0, self.consumed().len() as int)
            =~= self.consumed());
    }

    /// A buffered port over `uart`, with `buf` as the storage of its ring.
    /// No register is touched.
    pub fn new(uart: UartPort<D>, buf: Vec<u8>) -> (port: Self)
        ensures
            port.wf(),
            port.inner() == uart,
            port.buffered() == Seq::<u8>::empty(),
            port.ring().spec_capacity() == buf@.len(),
            port.delivered() == Seq::<u8>::empty(),
            port.consumed() == Seq::<u8>::empty(),
    {
        let port = BufferedUartPort {
            inner: uart,
            buf: RingBuffer::new(buf),
            delivered: Ghost(Seq::empty()),
            consumed: Ghost(Seq::empty()),
        };
        assert(port.consumed@ + port.buf@ =~= port.delivered@);
        port
    }

    /// The serial port underneath, for what the buffered port does not offer.
    /// The ring takes no note of bytes read through it.
    pub fn inner_mut(&mut self) -> (inner: &mut UartPort<D>)
        ensures
            *inner == old(self).inner(),
            final(self).inner() == *final(inner),
            final(self).ring() == old(self).ring(),
            final(self).delivered() == old(self).delivered(),
            final(self).consumed() == old(self).consumed(),
            old(self).wf() ==> final(self).wf(),
    {
        &mut self.inner
    }

    /// Number of bytes taken from the device and not yet consumed.
    pub fn buffered_len(&self) -> (n: usize)
        requires
            self.wf(),
        ensures
            n == self.buffered().len(),
    {
        self.buf.available()
    }

    /// Length of the run that `poll_fill` hands out while bytes are buffered,
    /// which is the most that `consume` may release.
    pub fn next_run_len(&self) -> (n: usize)
        requires
            self.wf(),
        ensures
            n == self.next_run().len(),
    {
        proof {
            self.buf.lemma_pop_len();
            self.buf.lemma_view_len();
        }
        self.buf.pop_slice().len()
    }

    /// The run that `poll_fill` hands out while bytes are buffered. No
    /// register is touched.
    pub fn next_run_bytes(&self) -> (run: &[u8])
        requires
            self.wf(),
        ensures
            run@ == self.next_run(),
    {
        self.buf.pop_slice()
    }

    /// Pulses the receive and transmit resets, with interrupts disabled.
    /// Bytes already buffered stay buffered.
    pub fn init(&mut self)
        requires
            old(self).wf(),
        ensures
            final(self).wf(),
            final(self).log() == old(self).log().push(
                Access::WriteControl(UartControl { raw: crate::port::reset_word() }),
            ),
            final(self).ring() == old(self).ring(),
            final(self).delivered() == old(self).delivered(),
            final(self).consumed() == old(self).consumed(),
            final(self).inner().fifo_capacity() == old(self).inner().fifo_capacity(),
            final(self).inner().fifo_len() == old(self).inner().fifo_len(),
    {
        self.inner.init();
    }

    /// Pulses the receive and transmit resets. Bytes already buffered stay
    /// buffered.
    pub fn clear(&mut self)
        requires
            old(self).wf(),
        ensures
            final(self).wf(),
            final(self).log() == old(self).log().push(
                Access::WriteControl(UartControl { raw: crate::port::reset_word() }),
            ),
            final(self).ring() == old(self).ring(),
            final(self).delivered() == old(self).delivered(),
            final(self).consumed() == old(self).consumed(),
            final(self).inner().fifo_capacity() == old(self).inner().fifo_capacity(),
            final(self).inner().fifo_len() == old(self).inner().fifo_len(),
    {
        self.inner.clear();
    }

    /// One step of a fill. While bytes are buffered, no register is touched,
    /// the ring stays as it is and the answer is the next run of them: the
    /// same run as before if nothing was consumed, else what is left of it. With the ring empty, one
    /// `poll_read` is made into the ring's free run: `Ok(None)` tells the
    /// caller to come back later, `Err(Overrun)` passes the port's error on,
    /// and after a read the bytes it took are buffered and the answer is the
    /// next run of them. The run is a view into the ring: nothing is copied.
    pub fn poll_fill(&mut self) -> (outcome: Result<Option<&[u8]>, Error>)
        requires
            old(self).wf(),
        ensures
            final(self).wf(),
            final(self).consumed() == old(self).consumed(),
            final(self).delivered() == old(self).delivered() + received(
                appended(final(self).log(), old(self).log().len() as int),
            ),
            final(self).buffered() == old(self).buffered() + received(
                appended(final(self).log(), old(self).log().len() as int),
            ),
            final(self).ring().spec_capacity() == old(self).ring().spec_capacity(),
            final(self).inner().fifo_capacity() == old(self).inner().fifo_capacity(),
            final(self).inner().fifo_len() == old(self).inner().fifo_len(),
            final(self).ring().read_cursor() == old(self).ring().read_cursor(),
            final(self).ring().write_cursor() == wrap(
                old(self).ring().write_cursor() as int,
                received(appended(final(self).log(), old(self).log().len() as int)).len() as int,
                old(self).ring().spec_capacity() as int,
            ),
            outcome matches Ok(Some(run)) ==> run@ == final(self).next_run(),
            old(self).buffered().len() > 0 ==> final(self).log() == old(self).log()
                && final(self).ring() == old(self).ring() && outcome matches Ok(Some(_)),
            old(self).buffered().len() == 0 ==> poll_read_trace(
                old(self).log(),
                final(self).log(),
                old(self).ring().push_len() as int,
                match outcome {
                    Ok(Some(_)) => Ok(Some(final(self).buffered().len() as usize)),
                    Ok(None) => Ok(None),
                    Err(e) => Err(e),
                },
            ),
    {
        let ghost base = self.log().len() as int;
        let ghost ring = self.buf;
        proof {
            assert(appended(self.log(), base) =~= Seq::<Access>::empty());
            assert(received(Seq::<Access>::empty()) =~= Seq::<u8>::empty());
            assert(self.buf@ + Seq::<u8>::empty() =~= self.buf@);
            assert(self.delivered@ + Seq::<u8>::empty() =~= self.delivered@);
            ring.lemma_push_len();
            ring.lemma_view_len();
        }
        if self.buf.is_empty() {
            let run = self.buf.push_slice();
            let polled = self.inner.poll_read(run);
            let ghost written = run@;
            proof {
                ring.lemma_overwritten(self.buf, written);
            }
            match polled {
                Ok(Some(n)) => {
                    self.buf.push_done(n);
                    proof {
                        let taken = received(appended(self.log(), base));
                        self.delivered@ = self.delivered@ + taken;
                        assert(ring@ =~= Seq::<u8>::empty());
                        assert(self.buf@ =~= ring@ + taken);
                        assert(self.consumed@ + self.buf@ =~= self.delivered@);
                        self.buf.lemma_view_len();
                    }
                },
                Ok(None) => {
                    return Ok(None);
                },
                Err(e) => {
                    return Err(e);
                },
            }
        }
        Ok(Some(self.buf.pop_slice()))
    }

    /// Releases the `n` oldest buffered bytes, which must lie in the run that
    /// `poll_fill` hands out. No register is touched.
    pub fn consume(&mut self, n: usize)
        requires
            old(self).wf(),
            n <= old(self).next_run().len(),
        ensures
            final(self).wf(),
            final(self).buffered() == old(self).buffered().skip(n as int),
            final(self).consumed() == old(self).consumed() + old(self).buffered().take(n as int),
            final(self).delivered() == old(self).delivered(),
            final(self).inner() == old(self).inner(),
            final(self).ring().spec_capacity() == old(self).ring().spec_capacity(),
            final(self).ring().write_cursor() == old(self).ring().write_cursor(),
            final(self).ring().read_cursor() == wrap(
                old(self).ring().read_cursor() as int,
                n as int,
                old(self).ring().spec_capacity() as int,
            ),
            n < old(self).next_run().len() ==> final(self).next_run() == old(self).next_run().skip(
                n as int,
            ),
            n == 0 ==> final(self).ring() == old(self).ring(),
    {
        proof {
            self.buf.lemma_pop_len();
            self.buf.lemma_view_len();
        }
        let ghost before = self.buf@;
        let ghost run = self.next_run();
        if n == 0 {
            proof {
                assert(before.take(0) =~= Seq::<u8>::empty());
                assert(before.skip(0) =~= before);
                assert(self.consumed@ + Seq::<u8>::empty() =~= self.consumed@);
                assert(run.skip(0) =~= run);
            }
            return;
        }
        self.buf.pop_done(n);
        proof {
            self.consumed@ = self.consumed@ + before.take(n as int);
            assert(before.take(n as int) + before.skip(n as int) =~= before);
            assert(self.consumed@ + self.buf@ =~= self.delivered@);
            self.buf.lemma_view_len();
            if n < run.len() {
                assert(self.next_run() =~= run.skip(n as int));
            }
        }
    }

    /// Whether a read would find data. The ring is the first to say: while
    /// bytes are buffered the answer is yes and no register is touched. Only
    /// with the ring empty is the device asked.
    pub fn read_ready(&mut self) -> (ready: Result<bool, Error>)
        requires
            old(self).wf(),
        ensures
            final(self).wf(),
            final(self).ring() == old(self).ring(),
            final(self).delivered() == old(self).delivered(),
            final(self).consumed() == old(self).consumed(),
            final(self).inner().fifo_capacity() == old(self).inner().fifo_capacity(),
            final(self).inner().fifo_len() == old(self).inner().fifo_len(),
            old(self).buffered().len() > 0 ==> ready == Ok::<bool, Error>(true) && final(self).log() == old(self).log(),
            old(self).buffered().len() == 0 ==> final(self).log() == old(self).log().push(
                Access::ReadStatus(status_at(final(self).log(), old(self).log().len() as int)),
            ) && ready == Ok::<bool, Error>(
                status_at(final(self).log(), old(self).log().len() as int).rx_not_empty(),
            ),
    {
        if !self.buf.is_empty() {
            return Ok(true);
        }
        self.inner.read_ready()
    }

    /// One step of a waiting read into `buf`. With an empty `buf` the answer
    /// is `Ok(Some(0))` and nothing is touched. While bytes are buffered they
    /// are served first: as many of the next run as `buf` has places are
    /// copied to its front and consumed, and no register is touched. Only
    /// with the ring empty is the port asked, by its own `poll_read`; what it
    /// reads goes to `buf` directly and counts as delivered and consumed.
    pub fn poll_read(&mut self, buf: &mut [u8]) -> (outcome: Result<Option<usize>, Error>)
        requires
            old(self).wf(),
        ensures
            final(self).wf(),
            final(buf)@.len() == old(buf)@.len(),
            final(self).inner().fifo_capacity() == old(self).inner().fifo_capacity(),
            final(self).inner().fifo_len() == old(self).inner().fifo_len(),
            final(self).ring().spec_capacity() == old(self).ring().spec_capacity(),
            old(buf)@.len() == 0 ==> outcome == Ok::<Option<usize>, Error>(Some(0usize))
                && final(self).log() == old(self).log() && final(self).ring() == old(self).ring()
                && final(self).delivered() == old(self).delivered() && final(self).consumed()
                == old(self).consumed(),
            old(buf)@.len() > 0 && old(self).buffered().len() > 0 ==> {
                let n = served(old(self).next_run().len(), old(buf)@.len());
                &&& outcome == Ok::<Option<usize>, Error>(Some(n as usize))
                &&& 0 < n
                &&& final(self).log() == old(self).log()
                &&& final(buf)@.take(n as int) == old(self).next_run().take(n as int)
                &&& forall|k: int| n <= k < old(buf)@.len() ==> final(buf)@[k] == old(buf)@[k]
                &&& final(self).buffered() == old(self).buffered().skip(n as int)
                &&& final(self).consumed() == old(self).consumed() + old(self).buffered().take(
                    n as int,
                )
                &&& final(self).delivered() == old(self).delivered()
                &&& final(self).ring().write_cursor() == old(self).ring().write_cursor()
                &&& final(self).ring().read_cursor() == wrap(
                    old(self).ring().read_cursor() as int,
                    n as int,
                    old(self).ring().spec_capacity() as int,
                )
            },
            old(buf)@.len() > 0 && old(self).buffered().len() == 0 ==> {
                let taken = received(appended(final(self).log(), old(self).log().len() as int));
                &&& poll_read_trace(
                    old(self).log(),
                    final(self).log(),
                    old(buf)@.len() as int,
                    outcome,
                )
                &&& outcome matches Ok(Some(n)) ==> taken == final(buf)@.take(n as int)
                    && forall|k: int| n <= k < old(buf)@.len() ==> final(buf)@[k] == old(buf)@[k]
                &&& !(outcome matches Ok(Some(_))) ==> final(buf)@ == old(buf)@
                    && taken == Seq::<u8>::empty()
                &&& final(self).ring() == old(self).ring()
                &&& final(self).delivered() == old(self).delivered() + taken
                &&& final(self).consumed() == old(self).consumed() + taken
            },
    {
        if buf.len() == 0 {
            return Ok(Some(0));
        }
        proof {
            self.buf.lemma_pop_len();
            self.buf.lemma_view_len();
        }
        if !self.buf.is_empty() {
            let ghost before = self.buf@;
            let run = self.buf.pop_slice();
            let n = if run.len() < buf.len() {
                run.len()
            } else {
                buf.len()
            };
            let mut i: usize = 0;
            while i < n
                invariant
                    i <= n <= run@.len(),
                    n <= buf@.len() == old(buf)@.len(),
                    forall|k: int| 0 <= k < i ==> buf@[k] == run@[k],
                    forall|k: int| i <= k < buf@.len() ==> buf@[k] == old(buf)@[k],
                decreases n - i,
            {
                buf[i] = run[i];
                i = i + 1;
            }
            proof {
                assert(buf@.take(n as int) =~= run@.take(n as int));
            }
            self.buf.pop_done(n);
            proof {
                self.consumed@ = self.consumed@ + before.take(n as int);
                assert(before.take(n as int) + before.skip(n as int) =~= before);
                assert(self.consumed@ + self.buf@ =~= self.delivered@);
            }
            return Ok(Some(n));
        }
        let ghost base = self.log().len() as int;
        let outcome = self.inner.poll_read(buf);
        proof {
            let taken = received(appended(self.log(), base));
            self.delivered@ = self.delivered@ + taken;
            self.consumed@ = self.consumed@ + taken;
            assert(self.buf@ =~= Seq::<u8>::empty());
            assert(self.consumed@ + self.buf@ =~= self.delivered@);
        }
        outcome
    }

    /// Whether a write would be admitted now.
    pub fn write_ready(&mut self) -> (ready: Result<bool, Error>)
        requires
            old(self).wf(),
        ensures
            final(self).wf(),
            final(self).log() == old(self).log().push(
                Access::ReadStatus(status_at(final(self).log(), old(self).log().len() as int)),
            ),
            ready == Ok::<bool, Error>(
                reports_room(
                    status_at(final(self).log(), old(self).log().len() as int),
                    old(self).inner().fifo_len() as nat,
                    old(self).inner().fifo_capacity() as nat,
                ),
            ),
            final(self).ring() == old(self).ring(),
            final(self).delivered() == old(self).delivered(),
            final(self).consumed() == old(self).consumed(),
            final(self).inner().fifo_capacity() == old(self).inner().fifo_capacity(),
            final(self).inner().fifo_len() == resync(
                status_at(final(self).log(), old(self).log().len() as int),
                old(self).inner().fifo_len() as nat,
            ),
    {
        self.inner.write_ready()
    }

    /// One step of a waiting write. Writes are not buffered: this is the
    /// port's own `poll_write`.
    pub fn poll_write(&mut self, buf: &[u8]) -> (outcome: Option<usize>)
        requires
            old(self).wf(),
        ensures
            final(self).wf(),
            poll_write_trace(
                old(self).log(),
                final(self).log(),
                buf@,
                old(self).inner().fifo_len() as nat,
                old(self).inner().fifo_capacity() as nat,
                outcome,
            ),
            final(self).inner().fifo_capacity() == old(self).inner().fifo_capacity(),
            final(self).inner().fifo_len() == occupancy(
                appended(final(self).log(), old(self).log().len() as int),
                old(self).inner().fifo_len() as nat,
            ),
            transmitted(appended(final(self).log(), old(self).log().len() as int)) == (
            match outcome {
                Some(n) => buf@.take(n as int),
                None => Seq::<u8>::empty(),
            }),
            final(self).ring() == old(self).ring(),
            final(self).delivered() == old(self).delivered(),
            final(self).consumed() == old(self).consumed(),
    {
        self.inner.poll_write(buf)
    }
}

} // verus!
