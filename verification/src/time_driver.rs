//! The timer wake dispatcher: a queue of wake-up deadlines, and the machine
//! timer's compare register kept at the earliest of them.

use crate::timer::{compare_after, lemma_compare_after_push, TimerAccess, TimerRegisters};
use core::task::Waker;
use embassy_time_queue_utils::Queue;
use vstd::multiset::Multiset;
use vstd::prelude::*;

verus! {

/// The timer queue of `embassy-time-queue-utils`, opaque here: its entries
/// are known only through `queue_deadlines`.
#[verifier::external_type_specification]
#[verifier::external_body]
pub struct ExQueue(Queue);

/// The waker of `core::task`, opaque here: it is only handed on to the queue.
#[verifier::external_type_specification]
#[verifier::external_body]
pub struct ExWaker(Waker);

/// The deadlines that wait in a queue, each as often as an entry holds it.
pub uninterp spec fn queue_deadlines(queue: Queue) -> Multiset<u64>;

/// Whether the code behind a waker returns: cloning it, waking it or a clone
/// of it, and dropping it or a clone of it neither panics nor runs forever.
pub uninterp spec fn waker_returns(waker: Waker) -> bool;

/// Whether `waker_returns` holds of the waker of every entry of a queue.
pub uninterp spec fn queue_wakers_return(queue: Queue) -> bool;

/// Number of entries that the queue holds at most.
pub const QUEUE_CAPACITY: usize = 8;

/// Whether `next` is the alarm time for the deadlines `waiting`: the earliest
/// of them, or the far future where none waits.
pub open spec fn is_earliest(waiting: Multiset<u64>, next: u64) -> bool {
    &&& next == u64::MAX || waiting.count(next) > 0
    &&& forall|deadline: u64| waiting.count(deadline) > 0 ==> next <= deadline
}

/// The deadlines of `waiting` that lie after `now`.
pub open spec fn still_waiting(waiting: Multiset<u64>, now: u64) -> Multiset<u64> {
    waiting.filter(|deadline: u64| deadline > now)
}

/// What scheduling a wake at `at` may do to the waiting deadlines, and what
/// the queue then answers. Which case applies depends on whether the queue
/// already holds an entry for the same waker, which the deadlines alone do
/// not show.
///
/// - A new entry, with room left: `at` is added. The answer is `true`.
/// - A new entry, with the queue full: one entry is dropped to make room and
///   `at` is added. The answer is `true`.
/// - An entry for the same waker with a later deadline: that deadline becomes
///   `at`. The answer is `true`.
/// - An entry for the same waker with a deadline no later than `at`: nothing
///   changes. The answer is `false`.
pub open spec fn scheduled(
    before: Multiset<u64>,
    after: Multiset<u64>,
    at: u64,
    changed: bool,
) -> bool {
    if changed {
        ||| before.len() < QUEUE_CAPACITY && after == before.insert(at)
        ||| exists|gone: u64|
            before.count(gone) > 0 && (gone > at || before.len() == QUEUE_CAPACITY)
                && #[trigger] before.remove(gone).insert(at) == after
    } else {
        after == before && exists|kept: u64| #[trigger] before.count(kept) > 0 && kept <= at
    }
}

/// `Waker::noop` of `core::task`: a waker that does nothing when it is
/// cloned, woken or dropped, so all of that returns.
pub assume_specification[ Waker::noop ]() -> (waker: &'static Waker)
    ensures
        waker_returns(*waker),
;

/// `Queue::new` of `embassy-time-queue-utils`: the new queue holds no entry,
/// and so no waker that would not return.
pub assume_specification[ Queue::new ]() -> (queue: Queue)
    ensures
        queue_deadlines(queue) == Multiset::<u64>::empty(),
        queue_wakers_return(queue),
;

/// `Queue::schedule_wake` of `embassy-time-queue-utils`, built with room for
/// eight entries. The queue looks for an entry of the same waker: one with a
/// later deadline is moved to `at`, one with an earlier or equal deadline is
/// left alone and the answer is `false`. Without such an entry a new one is
/// added with a clone of the waker; if the queue is full, its last entry is
/// first taken out and its waker woken. The contract states what this does to
/// the deadlines in each of these cases, not which of them applies.
///
/// The call runs the code behind wakers: it clones `waker`, and it wakes and
/// drops the waker of an entry that it takes out. So it is asked that this
/// code returns, of `waker` and of the wakers in the queue, and then it
/// returns of the wakers in the queue afterwards, which are those two kinds.
pub assume_specification[ Queue::schedule_wake ](queue: &mut Queue, at: u64, waker: &Waker) -> (changed: bool)
    requires
        queue_wakers_return(*old(queue)),
        waker_returns(*waker),
    ensures
        scheduled(queue_deadlines(*old(queue)), queue_deadlines(*final(queue)), at, changed),
        queue_wakers_return(*final(queue)),
;

/// `Queue::next_expiration` of `embassy-time-queue-utils`: every entry whose
/// deadline is at or before `now` is taken out and its waker woken; the
/// others stay. The answer is the earliest deadline that stays, or `u64::MAX`
/// where none does.
///
/// The call wakes and drops the wakers of the entries that it takes out. So
/// it is asked that the code behind the wakers in the queue returns; the
/// wakers that stay are among them.
pub assume_specification[ Queue::next_expiration ](queue: &mut Queue, now: u64) -> (next: u64)
    requires
        queue_wakers_return(*old(queue)),
    ensures
        queue_deadlines(*final(queue)) == still_waiting(queue_deadlines(*old(queue)), now),
        is_earliest(queue_deadlines(*final(queue)), next),
        queue_wakers_return(*final(queue)),
;

/// The waiting deadlines leave no choice of alarm time.
pub proof fn lemma_earliest_unique(waiting: Multiset<u64>, first: u64, second: u64)
    requires
        is_earliest(waiting, first),
        is_earliest(waiting, second),
    ensures
        first == second,
{
}

/// Where no deadline waits, the alarm time is the far future; a deadline that
/// waits is never earlier than the alarm time.
pub proof fn lemma_earliest_bounds(waiting: Multiset<u64>, next: u64, deadline: u64)
    requires
        is_earliest(waiting, next),
    ensures
        waiting.len() == 0 ==> next == u64::MAX,
        waiting.count(deadline) > 0 ==> next <= deadline,
{
    broadcast use vstd::multiset::group_multiset_axioms;

    if waiting.len() == 0 && next != u64::MAX {
        assert(waiting.count(next) > 0);
        assert(waiting =~= Multiset::<u64>::empty());
    }
}

/// The alarm time of deadlines that all lie after `now` lies after `now` too,
/// unless `now` is the last tick there is.
pub proof fn lemma_earliest_is_later(waiting: Multiset<u64>, now: u64, next: u64)
    requires
        now < u64::MAX,
        is_earliest(still_waiting(waiting, now), next),
    ensures
        next > now,
{
    broadcast use vstd::multiset::group_multiset_axioms;

}

/// The tick count that the access at position `at` of `log` read.
pub open spec fn time_at(log: Seq<TimerAccess>, at: int) -> u64 {
    log[at]->ReadTime_0
}

/// What a dispatch pass at `now` leaves behind: the deadlines at or before
/// `now` are gone, and one write has set the compare register to the alarm
/// time of those that stay, which lies after `now`.
pub open spec fn dispatched(
    waiting_before: Multiset<u64>,
    log_before: Seq<TimerAccess>,
    waiting_after: Multiset<u64>,
    log_after: Seq<TimerAccess>,
    now: u64,
) -> bool {
    &&& waiting_after == still_waiting(waiting_before, now)
    &&& compare_after(log_after) matches Some(next) && next > now && is_earliest(
        waiting_after,
        next,
    ) && log_after == log_before.push(TimerAccess::WriteCompare(next))
}

/// The timer wake dispatcher. It owns the timer block and the queue of
/// deadlines; holding it by `&mut` is what a critical section grants.
pub struct TimeDriver<T: TimerRegisters> {
    timer: T,
    queue: Queue,
}

impl<T: TimerRegisters> TimeDriver<T> {
    /// The timer block.
    pub closed spec fn timer(&self) -> T {
        self.timer
    }

    /// Every access made to the timer block through its handle, oldest
    /// first: the handle's own record, to which the dispatcher can add only
    /// by an access.
    pub open spec fn log(&self) -> Seq<TimerAccess> {
        self.timer().accesses()
    }

    /// The deadlines that wait to fire, each as often as an entry holds it.
    pub closed spec fn deadlines(&self) -> Multiset<u64> {
        queue_deadlines(self.queue)
    }

    /// The code behind every waker in the queue returns when it is run. This
    /// holds of a new dispatcher and stays true as long as `schedule_wake` is
    /// given such wakers only.
    pub closed spec fn wakers_return(&self) -> bool {
        queue_wakers_return(self.queue)
    }

    /// The value last written to the compare register through the handle.
    pub open spec fn armed(&self) -> Option<u64> {
        compare_after(self.log())
    }

    /// The compare register stands at the earliest waiting deadline, or at
    /// the far future where none waits.
    pub open spec fn wf(&self) -> bool {
        self.armed() matches Some(next) && is_earliest(self.deadlines(), next)
    }

    /// A dispatcher on `timer` with an empty queue. No register is touched.
    pub fn new(timer: T) -> (driver: Self)
        ensures
            driver.timer() == timer,
            driver.deadlines() == Multiset::<u64>::empty(),
            driver.wakers_return(),
    {
        TimeDriver { timer, queue: Queue::new() }
    }

    /// Starts the timer: the counter is set to zero and the compare register
    /// to the far future.
    pub fn init_timer(&mut self)
        ensures
            final(self).log() == old(self).log().push(TimerAccess::WriteTime(0)).push(
                TimerAccess::WriteCompare(u64::MAX),
            ),
            final(self).armed() == Some(u64::MAX),
            final(self).deadlines() == old(self).deadlines(),
            final(self).wakers_return() == old(self).wakers_return(),
            old(self).deadlines().len() == 0 ==> final(self).wf(),
    {
        self.timer.write_mtime(0);
        self.timer.write_mtimecmp(u64::MAX);
        proof {
            lemma_compare_after_push(
                old(self).log().push(TimerAccess::WriteTime(0)),
                TimerAccess::WriteCompare(u64::MAX),
            );
        }
    }

    /// The current tick count: one read of the counter.
    pub fn now(&mut self) -> (now: u64)
        ensures
            final(self).log() == old(self).log().push(TimerAccess::ReadTime(now)),
            final(self).armed() == old(self).armed(),
            final(self).deadlines() == old(self).deadlines(),
            final(self).wakers_return() == old(self).wakers_return(),
    {
        let now = self.timer.read_mtime();
        proof {
            lemma_compare_after_push(old(self).log(), TimerAccess::ReadTime(now));
        }
        now
    }

    /// Arms the compare register at `at`, unless `at` has been reached at
    /// `now`: then nothing is written and the answer is `false`.
    pub fn set_alarm(&mut self, now: u64, at: u64) -> (armed: bool)
        ensures
            armed == (at > now),
            final(self).log() == (if armed {
                old(self).log().push(TimerAccess::WriteCompare(at))
            } else {
                old(self).log()
            }),
            final(self).armed() == (if armed {
                Some(at)
            } else {
                old(self).armed()
            }),
            final(self).deadlines() == old(self).deadlines(),
            final(self).wakers_return() == old(self).wakers_return(),
    {
        if at <= now {
            return false;
        }
        self.timer.write_mtimecmp(at);
        proof {
            lemma_compare_after_push(old(self).log(), TimerAccess::WriteCompare(at));
        }
        true
    }

    /// The timer block itself, for accesses the dispatcher does not offer.
    /// They go into the log like the dispatcher's own.
    pub fn timer_mut(&mut self) -> (timer: &mut T)
        ensures
            *timer == old(self).timer(),
            final(self).timer() == *final(timer),
            final(self).deadlines() == old(self).deadlines(),
            final(self).wakers_return() == old(self).wakers_return(),
    {
        &mut self.timer
    }

    /// Fires what is due at `now` and re-arms: every deadline at or before
    /// `now` leaves the queue with its waker woken, and the compare register
    /// is set to the earliest deadline that stays, or to the far future. The
    /// value written lies after `now`. A counter at its last tick is about to
    /// wrap, which the dispatcher does not handle.
    pub fn dispatch(&mut self, now: u64)
        requires
            now < u64::MAX,
            old(self).wakers_return(),
        ensures
            final(self).wakers_return(),
            dispatched(
                old(self).deadlines(),
                old(self).log(),
                final(self).deadlines(),
                final(self).log(),
                now,
            ),
            final(self).wf(),
    {
        let mut next = self.queue.next_expiration(now);
        proof {
            lemma_earliest_is_later(old(self).deadlines(), now, next);
        }
        loop
            invariant_except_break
                self.log() == old(self).log(),
                self.wakers_return(),
                next > now,
                self.deadlines() == still_waiting(old(self).deadlines(), now),
                is_earliest(self.deadlines(), next),
            ensures
                self.wakers_return(),
                self.deadlines() == still_waiting(old(self).deadlines(), now),
                is_earliest(self.deadlines(), next),
                next > now,
                self.log() == old(self).log().push(TimerAccess::WriteCompare(next)),
                self.armed() == Some(next),
            decreases 0int,
        {
            if self.set_alarm(now, next) {
                break;
            }
            // Not reached: the queue has let go of every deadline at or
            // before `now`, so what it answered lies after `now` and the
            // alarm was set.
            next = self.queue.next_expiration(now);
        }
    }

    /// Queues a wake of `waker` at the tick `at`. The queue runs the code
    /// behind wakers, so that code must return, of `waker` as of the wakers
    /// queued before. If the queue reports no change, no register is touched. Otherwise the counter is read and,
    /// unless it stands at its last tick, a dispatch pass follows: so a
    /// deadline that has passed already fires at once, and the compare
    /// register stands at the earliest deadline that waits.
    pub fn schedule_wake(&mut self, at: u64, waker: &Waker)
        requires
            old(self).wakers_return(),
            waker_returns(*waker),
        ensures
            final(self).wakers_return(),
            old(self).log().is_prefix_of(final(self).log()),
            final(self).log() == old(self).log() ==> scheduled(
                old(self).deadlines(),
                final(self).deadlines(),
                at,
                false,
            ),
            final(self).log() != old(self).log() ==> {
                let base = old(self).log().len() as int;
                let now = time_at(final(self).log(), base);
                &&& final(self).log()[base] is ReadTime
                &&& now == u64::MAX ==> final(self).log().len() == base + 1 && scheduled(
                    old(self).deadlines(),
                    final(self).deadlines(),
                    at,
                    true,
                )
                &&& now < u64::MAX ==> exists|queued: Multiset<u64>|
                    #![trigger still_waiting(queued, now)]
                    scheduled(old(self).deadlines(), queued, at, true) && dispatched(
                        queued,
                        final(self).log().take(base + 1),
                        final(self).deadlines(),
                        final(self).log(),
                        now,
                    )
            },
            old(self).wf() && (final(self).log() == old(self).log() || time_at(
                final(self).log(),
                old(self).log().len() as int,
            ) < u64::MAX) ==> final(self).wf(),
    {
        let ghost base = self.log().len() as int;
        let should_arm = self.queue.schedule_wake(at, waker);
        if should_arm {
            let ghost queued = self.deadlines();
            let now = self.now();
            let ghost read = self.log();
            if now < u64::MAX {
                self.dispatch(now);
                proof {
                    assert(self.log().take(base + 1) =~= read);
                    assert(self.log()[base] == read[base]);
                    assert(scheduled(old(self).deadlines(), queued, at, true) && dispatched(
                        queued,
                        self.log().take(base + 1),
                        self.deadlines(),
                        self.log(),
                        now,
                    ));
                    assert(still_waiting(queued, now) == self.deadlines());
                }
            }
        }
    }

    /// The machine-timer interrupt: the counter is read and, unless it stands
    /// at its last tick, a dispatch pass follows.
    pub fn on_interrupt(&mut self)
        requires
            old(self).wakers_return(),
        ensures
            final(self).wakers_return(),
            old(self).log().is_prefix_of(final(self).log()),
            final(self).log().len() > old(self).log().len(),
            final(self).log()[old(self).log().len() as int] is ReadTime,
            time_at(final(self).log(), old(self).log().len() as int) == u64::MAX ==> {
                &&& final(self).log().len() == old(self).log().len() + 1
                &&& final(self).deadlines() == old(self).deadlines()
                &&& final(self).armed() == old(self).armed()
            },
            time_at(final(self).log(), old(self).log().len() as int) < u64::MAX ==> dispatched(
                old(self).deadlines(),
                final(self).log().take(old(self).log().len() as int + 1),
                final(self).deadlines(),
                final(self).log(),
                time_at(final(self).log(), old(self).log().len() as int),
            ) && final(self).wf(),
    {
        let ghost base = self.log().len() as int;
        let now = self.now();
        let ghost read = self.log();
        if now < u64::MAX {
            self.dispatch(now);
            proof {
                assert(self.log().take(base + 1) =~= read);
                assert(self.log()[base] == read[base]);
            }
        }
    }
}

} // verus!
