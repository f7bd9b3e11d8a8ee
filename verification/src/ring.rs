//! A fixed-capacity byte ring with a read cursor and a write cursor. Bytes go
//! in and come out through contiguous runs of the storage itself, so nothing
//! is copied; a run never wraps, so that a full turn takes two of them.

use vstd::prelude::*;

verus! {

/// The storage position `steps` places after `from`, in a ring of `capacity`
/// places.
pub open spec fn wrap(from: int, steps: int, capacity: int) -> int {
    if from + steps < capacity {
        from + steps
    } else {
        from + steps - capacity
    }
}

/// A byte ring over storage handed in at construction.
pub struct RingBuffer {
    buf: Vec<u8>,
    start: usize,
    end: usize,
    full: bool,
}

impl View for RingBuffer {
    type V = Seq<u8>;

    /// The unread bytes, oldest first.
    closed spec fn view(&self) -> Seq<u8> {
        Seq::new(
            self.spec_available(),
            |i: int| self.buf@[wrap(self.start as int, i, self.buf@.len() as int)],
        )
    }
}

impl RingBuffer {
    /// Number of places in the ring.
    pub closed spec fn spec_capacity(&self) -> nat {
        self.buf@.len()
    }

    /// Storage position of the oldest unread byte.
    pub closed spec fn read_cursor(&self) -> nat {
        self.start as nat
    }

    /// Storage position that the next pushed byte takes.
    pub closed spec fn write_cursor(&self) -> nat {
        self.end as nat
    }

    /// Whether every place holds an unread byte.
    pub closed spec fn spec_is_full(&self) -> bool {
        self.full
    }

    /// The cursors lie inside the storage, and "full" is only said where they
    /// meet.
    pub open spec fn wf(&self) -> bool {
        &&& self.spec_capacity() == 0 ==> self.read_cursor() == 0 && self.write_cursor() == 0
        &&& self.spec_capacity() > 0 ==> self.read_cursor() < self.spec_capacity()
            && self.write_cursor() < self.spec_capacity()
        &&& self.spec_is_full() ==> self.read_cursor() == self.write_cursor()
            && self.spec_capacity() > 0
    }

    /// Number of unread bytes.
    pub open spec fn spec_available(&self) -> nat {
        if self.spec_is_full() {
            self.spec_capacity()
        } else if self.write_cursor() >= self.read_cursor() {
            (self.write_cursor() - self.read_cursor()) as nat
        } else {
            (self.spec_capacity() - self.read_cursor() + self.write_cursor()) as nat
        }
    }

    /// Length of the run that `push_slice` hands out: the free places from the
    /// write cursor up to the read cursor or the end of the storage, whichever
    /// comes first.
    pub open spec fn push_len(&self) -> nat {
        if self.spec_is_full() {
            0
        } else if self.read_cursor() > self.write_cursor() {
            (self.read_cursor() - self.write_cursor()) as nat
        } else {
            (self.spec_capacity() - self.write_cursor()) as nat
        }
    }

    /// Length of the run that `pop_slice` hands out: the unread bytes from the
    /// read cursor up to the write cursor or the end of the storage, whichever
    /// comes first.
    pub open spec fn pop_len(&self) -> nat {
        if self.spec_available() == 0 {
            0
        } else if self.write_cursor() > self.read_cursor() {
            (self.write_cursor() - self.read_cursor()) as nat
        } else {
            (self.spec_capacity() - self.read_cursor()) as nat
        }
    }

    /// What the storage holds in the places of the next push run.
    pub closed spec fn free_run(&self) -> Seq<u8> {
        self.buf@.subrange(self.end as int, self.end + self.push_len())
    }

    /// The unread bytes number `spec_available`.
    pub proof fn lemma_view_len(&self)
        ensures
            self@.len() == self.spec_available(),
    {
    }

    /// The push run has `push_len` places, and as many are free.
    pub proof fn lemma_push_len(&self)
        requires
            self.wf(),
        ensures
            self.free_run().len() == self.push_len(),
            self.spec_available() + self.push_len() <= self.spec_capacity(),
            self.push_len() == 0 <==> self.spec_available() == self.spec_capacity(),
    {
    }

    /// The pop run is a part of the unread bytes, and empty only when they are.
    pub proof fn lemma_pop_len(&self)
        requires
            self.wf(),
        ensures
            self.pop_len() <= self.spec_available(),
            self.pop_len() == 0 <==> self.spec_available() == 0,
    {
    }

    /// An empty ring over `buf`, which gives the ring its capacity.
    pub fn new(buf: Vec<u8>) -> (ring: Self)
        ensures
            ring.wf(),
            ring@ == Seq::<u8>::empty(),
            ring.spec_capacity() == buf@.len(),
            ring.read_cursor() == 0,
            ring.write_cursor() == 0,
            !ring.spec_is_full(),
    {
        let ring = RingBuffer { buf, start: 0, end: 0, full: false };
        assert(ring@ =~= Seq::<u8>::empty());
        ring
    }

    /// Number of places in the ring.
    pub fn capacity(&self) -> (n: usize)
        ensures
            n == self.spec_capacity(),
    {
        self.buf.len()
    }

    /// Number of unread bytes.
    pub fn available(&self) -> (n: usize)
        requires
            self.wf(),
        ensures
            n == self.spec_available(),
            n == self@.len(),
    {
        if self.full {
            self.buf.len()
        } else if self.end >= self.start {
            self.end - self.start
        } else {
            self.buf.len() - self.start + self.end
        }
    }

    /// Whether no byte is unread.
    pub fn is_empty(&self) -> (empty: bool)
        requires
            self.wf(),
        ensures
            empty == (self.spec_available() == 0),
            empty == (self@.len() == 0),
    {
        !self.full && self.start == self.end
    }

    /// Whether every place holds an unread byte.
    #[verifier::when_used_as_spec(spec_is_full)]
    pub fn is_full(&self) -> (full: bool)
        ensures
            full == self.spec_is_full(),
    {
        self.full
    }

    /// Whether `after` is this ring with `run` written over its push run and
    /// nothing else changed.
    pub closed spec fn overwritten(&self, after: RingBuffer, run: Seq<u8>) -> bool {
        let cap = self.buf@.len() as int;
        let end = self.end as int;
        let n = self.push_len() as int;
        &&& after.start == self.start
        &&& after.end == self.end
        &&& after.full == self.full
        &&& run.len() == n
        &&& after.buf@ == self.buf@.subrange(0, end) + (run + self.buf@.subrange(end, cap).subrange(
            n,
            cap - end,
        ))
    }

    /// Writing over the push run changes no unread byte and moves no cursor.
    pub proof fn lemma_overwritten(&self, after: RingBuffer, run: Seq<u8>)
        requires
            self.wf(),
            self.overwritten(after, run),
        ensures
            after.wf(),
            after@ == self@,
            after.free_run() == run,
            after.spec_capacity() == self.spec_capacity(),
            after.read_cursor() == self.read_cursor(),
            after.write_cursor() == self.write_cursor(),
            after.spec_is_full() == self.spec_is_full(),
    {
        assert(after.free_run() =~= run);
        assert(after@ =~= self@);
    }

    /// The next free run of the storage, to be written in place from its
    /// front. It is empty exactly when the ring is full. Writing to it changes
    /// no unread byte; `push_done` then makes the written bytes unread ones.
    pub fn push_slice(&mut self) -> (run: &mut [u8])
        requires
            old(self).wf(),
        ensures
            run@ == old(self).free_run(),
            run@.len() == old(self).push_len(),
            final(run)@.len() == run@.len() ==> old(self).overwritten(*final(self), final(run)@),
    {
        let cap = self.buf.len();
        let n = if self.full {
            0
        } else if self.start > self.end {
            self.start - self.end
        } else {
            cap - self.end
        };
        let end = self.end;
        let whole = self.buf.as_mut_slice();
        let (head, tail) = whole.split_at_mut(end);
        let (run, rest) = tail.split_at_mut(n);
        assert(run@ =~= old(self).free_run());
        run
    }

    /// Makes the first `n` bytes of the push run unread bytes, newest last.
    pub fn push_done(&mut self, n: usize)
        requires
            old(self).wf(),
            n <= old(self).push_len(),
        ensures
            final(self).wf(),
            final(self)@ == old(self)@ + old(self).free_run().take(n as int),
            final(self).spec_capacity() == old(self).spec_capacity(),
            final(self).read_cursor() == old(self).read_cursor(),
            final(self).write_cursor() == wrap(
                old(self).write_cursor() as int,
                n as int,
                old(self).spec_capacity() as int,
            ),
            final(self).spec_is_full() == (if n > 0 {
                final(self).write_cursor() == final(self).read_cursor()
            } else {
                old(self).spec_is_full()
            }),
    {
        let ghost before = *self;
        if n > 0 {
            let cap = self.buf.len();
            let moved = self.end + n;
            self.end = if moved == cap {
                0
            } else {
                moved
            };
            self.full = self.end == self.start;
        }
        proof {
            assert(self@ =~= before@ + before.free_run().take(n as int));
        }
    }

    /// The next run of unread bytes, oldest first. It is empty exactly when
    /// the ring is.
    pub fn pop_slice(&self) -> (run: &[u8])
        requires
            self.wf(),
        ensures
            run@ == self@.take(self.pop_len() as int),
            run@.len() == self.pop_len(),
    {
        let cap = self.buf.len();
        let n = if !self.full && self.start == self.end {
            0
        } else if self.end > self.start {
            self.end - self.start
        } else {
            cap - self.start
        };
        let run = vstd::slice::slice_subrange(self.buf.as_slice(), self.start, self.start + n);
        proof {
            assert(run@ =~= self@.take(self.pop_len() as int));
        }
        run
    }

    /// Drops the `n` oldest unread bytes, which must lie in the pop run.
    pub fn pop_done(&mut self, n: usize)
        requires
            old(self).wf(),
            n <= old(self).pop_len(),
        ensures
            final(self).wf(),
            final(self)@ == old(self)@.skip(n as int),
            final(self).spec_capacity() == old(self).spec_capacity(),
            final(self).write_cursor() == old(self).write_cursor(),
            final(self).read_cursor() == wrap(
                old(self).read_cursor() as int,
                n as int,
                old(self).spec_capacity() as int,
            ),
            final(self).spec_is_full() == (old(self).spec_is_full() && n == 0),
            n < old(self).pop_len() ==> final(self).pop_len() == old(self).pop_len() - n,
    {
        let ghost before = *self;
        if n > 0 {
            let cap = self.buf.len();
            let moved = self.start + n;
            self.start = if moved == cap {
                0
            } else {
                moved
            };
            self.full = false;
        }
        proof {
            assert(self@ =~= before@.skip(n as int));
        }
    }
}

} // verus!
