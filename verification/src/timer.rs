//! Register-level view of the machine timer: a free-running 64-bit counter
//! and the compare register that raises the timer interrupt.

use vstd::prelude::*;

verus! {

/// Physical base address of the timer block.
pub const MACHINE_TIMER_ADDR: usize = 0xf000_0000;

/// One access to a register of the timer block, with the value that crossed
/// the bus.
#[derive(Clone, Copy, PartialEq, Eq, Structural, Debug)]
pub enum TimerAccess {
    /// The counter was read and gave this value.
    ReadTime(u64),
    /// This value was written to the counter.
    WriteTime(u64),
    /// The compare register was read and gave this value.
    ReadCompare(u64),
    /// This value was written to the compare register.
    WriteCompare(u64),
}

/// The value that the compare register holds after `log`: the last one
/// written to it, if any was.
pub open spec fn compare_after(log: Seq<TimerAccess>) -> Option<u64>
    decreases log.len(),
{
    if log.len() == 0 {
        None
    } else {
        match log.last() {
            TimerAccess::WriteCompare(value) => Some(value),
            _ => compare_after(log.drop_last()),
        }
    }
}

/// What one more access does to the value in the compare register.
pub proof fn lemma_compare_after_push(log: Seq<TimerAccess>, access: TimerAccess)
    ensures
        compare_after(log.push(access)) == (match access {
            TimerAccess::WriteCompare(value) => Some(value),
            _ => compare_after(log),
        }),
{
    assert(log.push(access).drop_last() =~= log);
    assert(log.push(access).last() == access);
}

/// Access to the two registers of the timer block.
///
/// The counter runs on its own, so the contract of an access promises nothing
/// about a value read. It only records the access: `accesses` is the sequence
/// of all accesses made through this handle, oldest first, and every method
/// appends exactly the access it performs. What a driver says it did to the
/// timer can therefore be done in one way only: through these methods.
pub trait TimerRegisters {
    /// Every access made through this handle so far, oldest first.
    ///
    /// A handle on the hardware has nowhere to keep this record and leaves
    /// the definition as it stands here. Of such a handle the contracts of
    /// the four methods are taken on trust: they are then read as "this
    /// method performs exactly this access".
    open spec fn accesses(&self) -> Seq<TimerAccess> {
        Seq::empty()
    }

    /// Reads the counter.
    fn read_mtime(&mut self) -> (value: u64)
        ensures
            final(self).accesses() == old(self).accesses().push(TimerAccess::ReadTime(value)),
    ;

    /// Writes the counter.
    fn write_mtime(&mut self, value: u64)
        ensures
            final(self).accesses() == old(self).accesses().push(TimerAccess::WriteTime(value)),
    ;

    /// Reads the compare register.
    fn read_mtimecmp(&mut self) -> (value: u64)
        ensures
            final(self).accesses() == old(self).accesses().push(TimerAccess::ReadCompare(value)),
    ;

    /// Writes the compare register.
    fn write_mtimecmp(&mut self, value: u64)
        ensures
            final(self).accesses() == old(self).accesses().push(TimerAccess::WriteCompare(value)),
    ;
}

/// A timer block held in ordinary memory: two words, counter then compare.
///
/// The counter does not run by itself: whoever owns the value moves it with
/// `set_time`, which is no register access and leaves no trace in the record.
pub struct MachineTimer {
    mtime: u64,
    mtimecmp: u64,
    history: Ghost<Seq<TimerAccess>>,
}

impl MachineTimer {
    /// The counter.
    pub closed spec fn spec_mtime(&self) -> u64 {
        self.mtime
    }

    /// The compare register.
    pub closed spec fn spec_mtimecmp(&self) -> u64 {
        self.mtimecmp
    }

    /// A block with both registers at zero.
    pub fn new() -> (timer: Self)
        ensures
            timer.spec_mtime() == 0,
            timer.spec_mtimecmp() == 0,
            timer.accesses() == Seq::<TimerAccess>::empty(),
    {
        MachineTimer { mtime: 0, mtimecmp: 0, history: Ghost(Seq::empty()) }
    }

    /// The counter.
    #[verifier::when_used_as_spec(spec_mtime)]
    pub fn mtime(&self) -> (value: u64)
        ensures
            value == self.spec_mtime(),
    {
        self.mtime
    }

    /// The compare register.
    #[verifier::when_used_as_spec(spec_mtimecmp)]
    pub fn mtimecmp(&self) -> (value: u64)
        ensures
            value == self.spec_mtimecmp(),
    {
        self.mtimecmp
    }

    /// Moves the counter, as the passing of time would.
    pub fn set_time(&mut self, value: u64)
        ensures
            final(self).mtime() == value,
            final(self).mtimecmp() == old(self).mtimecmp(),
            final(self).accesses() == old(self).accesses(),
    {
        self.mtime = value;
    }

    /// Whether the block raises the timer interrupt: the counter has reached
    /// the compare register.
    pub fn interrupt_pending(&self) -> (pending: bool)
        ensures
            pending == (self.mtime() >= self.mtimecmp()),
    {
        self.mtime >= self.mtimecmp
    }
}

impl TimerRegisters for MachineTimer {
    closed spec fn accesses(&self) -> Seq<TimerAccess> {
        self.history@
    }

    fn read_mtime(&mut self) -> (value: u64)
        ensures
            value == old(self).mtime(),
            final(self).mtime() == old(self).mtime(),
            final(self).mtimecmp() == old(self).mtimecmp(),
    {
        let value = self.mtime;
        proof {
            self.history@ = self.history@.push(TimerAccess::ReadTime(value));
        }
        value
    }

    fn write_mtime(&mut self, value: u64)
        ensures
            final(self).mtime() == value,
            final(self).mtimecmp() == old(self).mtimecmp(),
    {
        self.mtime = value;
        proof {
            self.history@ = self.history@.push(TimerAccess::WriteTime(value));
        }
    }

    fn read_mtimecmp(&mut self) -> (value: u64)
        ensures
            value == old(self).mtimecmp(),
            final(self).mtime() == old(self).mtime(),
            final(self).mtimecmp() == old(self).mtimecmp(),
    {
        let value = self.mtimecmp;
        proof {
            self.history@ = self.history@.push(TimerAccess::ReadCompare(value));
        }
        value
    }

    fn write_mtimecmp(&mut self, value: u64)
        ensures
            final(self).mtimecmp() == value,
            final(self).mtime() == old(self).mtime(),
    {
        self.mtimecmp = value;
        proof {
            self.history@ = self.history@.push(TimerAccess::WriteCompare(value));
        }
    }
}

} // verus!
