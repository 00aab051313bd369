//! The elastic worker pool.
//!
//! The pool keeps a baseline of `min_threads` workers alive, grows beyond
//! that baseline when a task arrives while no worker is idle, and shrinks
//! back once the extra workers have idled past a timeout.
//!
//! This module is the pool's state machine: the shared state — the pending
//! task list and the two liveness counters — together with every transition
//! a worker or a submitter performs on it. The runtime that spreads these
//! transitions over operating-system threads (spawning, locking, waiting on
//! a condition variable) is deliberately outside: each worker performs the
//! transitions below in the order the worker loop prescribes, and every
//! guarantee proved here is a guarantee about the shared state those
//! threads observe.

use vstd::prelude::*;

verus! {

/// Default minimum for the number of workers kept alive.
pub const DEFAULT_THREADS: usize = 10;

/// Default idle wait in milliseconds before an elastic worker gives up.
pub const DEFAULT_THREAD_TIMEOUT: u64 = 3000;

/// The mathematical state of a pool: the pending tasks, the two liveness
/// counters, and the configured baseline.
pub struct PoolModel<T> {
    /// Tasks waiting to be executed, oldest first; workers take from the end.
    pub pending: Seq<T>,
    /// Number of live workers.
    pub total_threads: nat,
    /// Number of workers currently waiting for a task.
    pub threads_waiting: nat,
    /// Configured minimum number of live workers.
    pub min_threads: nat,
}

/// The state of a pool that was just constructed: no workers, no tasks.
pub open spec fn pool_init<T>(min: nat) -> PoolModel<T> {
    PoolModel { pending: Seq::empty(), total_threads: 0, threads_waiting: 0, min_threads: min }
}

/// A worker registered itself: one more live worker.
pub open spec fn register_worker<T>(s: PoolModel<T>) -> PoolModel<T> {
    PoolModel { total_threads: s.total_threads + 1, ..s }
}

/// A worker unwound: one fewer live worker.
pub open spec fn unregister_worker<T>(s: PoolModel<T>) -> PoolModel<T> {
    PoolModel { total_threads: (s.total_threads - 1) as nat, ..s }
}

/// A worker began waiting for a task: one more idle worker.
pub open spec fn begin_wait<T>(s: PoolModel<T>) -> PoolModel<T> {
    PoolModel { threads_waiting: s.threads_waiting + 1, ..s }
}

/// A worker stopped waiting: one fewer idle worker.
pub open spec fn end_wait<T>(s: PoolModel<T>) -> PoolModel<T> {
    PoolModel { threads_waiting: (s.threads_waiting - 1) as nat, ..s }
}

/// A task was appended to the pending end of the task list.
pub open spec fn enqueue_task<T>(s: PoolModel<T>, task: T) -> PoolModel<T> {
    PoolModel { pending: s.pending.push(task), ..s }
}

/// The most recently queued task was taken.
pub open spec fn take_task<T>(s: PoolModel<T>) -> PoolModel<T> {
    PoolModel { pending: s.pending.drop_last(), ..s }
}

/// How an idle worker waits: the baseline waits indefinitely, a worker above
/// the baseline waits with a timeout.
pub open spec fn wait_mode_of<T>(s: PoolModel<T>) -> WaitMode {
    if s.total_threads <= s.min_threads {
        WaitMode::Indefinite
    } else {
        WaitMode::Timed
    }
}

/// Whether a worker whose wait ended gives up: only when the wait timed out
/// and the task list is still empty at that instant.
pub open spec fn terminates<T>(s: PoolModel<T>, timed_out: bool) -> bool {
    timed_out && s.pending.len() == 0
}

/// At no time do more workers wait than are live.
pub open spec fn counters_wf<T>(s: PoolModel<T>) -> bool {
    s.threads_waiting <= s.total_threads
}

/// How an idle worker blocks for its next task.
#[derive(Clone, Copy, Debug, PartialEq, Eq, Structural)]
pub enum WaitMode {
    /// Block on the condition variable with no timeout.
    Indefinite,
    /// Block with a bounded wait of [`DEFAULT_THREAD_TIMEOUT`] milliseconds.
    Timed,
}

/// What the runtime must do after a submission.
pub enum SubmitAction<T> {
    /// Nobody is waiting: spawn one more worker and give it the carried
    /// value directly, which never touches the task list.
    Spawn(T),
    /// The task was queued: wake exactly one idle worker.
    Notify,
}

/// A scoped liveness registration: increments a counter on creation and is
/// handed back to decrement it on every exit path of the registered region.
pub struct Register {}

impl Register {
    /// Enters a region: counts one more participant.
    pub fn new(count: &mut usize) -> (r: Register)
        requires
            *old(count) < usize::MAX,
        ensures
            *final(count) == *old(count) + 1,
    {
        let c: usize = *count;
        *count = c + 1;
        Register {}
    }

    /// Leaves the region entered by [`Register::new`]: counts one fewer
    /// participant.
    pub fn release(self, count: &mut usize)
        requires
            *old(count) > 0,
        ensures
            *final(count) == *old(count) - 1,
    {
        let c: usize = *count;
        *count = c - 1;
    }
}

/// The character of one decimal digit.
pub open spec fn digit_char(d: nat) -> char {
    if d == 0 {
        '0'
    } else if d == 1 {
        '1'
    } else if d == 2 {
        '2'
    } else if d == 3 {
        '3'
    } else if d == 4 {
        '4'
    } else if d == 5 {
        '5'
    } else if d == 6 {
        '6'
    } else if d == 7 {
        '7'
    } else if d == 8 {
        '8'
    } else {
        '9'
    }
}

/// The decimal rendering of `n`, most significant digit first, without
/// leading zeroes — how std renders an unsigned integer.
pub open spec fn decimal_digits(n: nat) -> Seq<char>
    decreases n,
{
    if n < 10 {
        seq![digit_char(n)]
    } else {
        decimal_digits(n / 10).push(digit_char(n % 10))
    }
}

/// The diagnostic rendering of the two liveness counters: a fixed skeleton
/// naming the pool around their decimal values.
pub open spec fn counters_rendering(waiting: nat, total: nat) -> Seq<char> {
    "TaskPool { threads_waiting: "@ + decimal_digits(waiting) + ", total_threads: "@
        + decimal_digits(total) + " }"@
}

/// Relies on the `format` macro of std to render the two liveness
/// counters: `{}` on an unsigned integer yields its decimal digits, and
/// the rest of the format string is copied as it stands.
#[verifier::external_body]
fn format_counters(waiting: usize, total: usize) -> (r: String)
    ensures
        r@ == counters_rendering(waiting as nat, total as nat),
{
    format!("TaskPool {{ threads_waiting: {}, total_threads: {} }}", waiting, total)
}

/// The shared state of a pool: the task list, the liveness counters and the
/// configuration. Every worker and the submitter operate on one shared
/// instance of this.
pub struct Inner<T> {
    task_list: Vec<T>,
    total_threads: usize,
    threads_waiting: usize,
    min_threads: usize,
}

impl<T> View for Inner<T> {
    type V = PoolModel<T>;

    closed spec fn view(&self) -> PoolModel<T> {
        PoolModel {
            pending: self.task_list@,
            total_threads: self.total_threads as nat,
            threads_waiting: self.threads_waiting as nat,
            min_threads: self.min_threads as nat,
        }
    }
}

impl<T> Inner<T> {
    /// Creates the shared state of a pool with no workers and no tasks.
    pub fn new(min_threads: usize) -> (r: Self)
        ensures
            r@ == pool_init::<T>(min_threads as nat),
    {
        let r = Inner {
            task_list: Vec::new(),
            total_threads: 0,
            threads_waiting: 0,
            min_threads,
        };
        proof {
            assert(r@ =~= pool_init::<T>(min_threads as nat));
        }
        r
    }

    /// Number of live workers.
    pub fn total_threads(&self) -> (r: usize)
        ensures
            r == self@.total_threads,
    {
        self.total_threads
    }

    /// Number of workers currently waiting for a task.
    pub fn threads_waiting(&self) -> (r: usize)
        ensures
            r == self@.threads_waiting,
    {
        self.threads_waiting
    }

    /// Configured minimum number of live workers.
    pub fn min_threads(&self) -> (r: usize)
        ensures
            r == self@.min_threads,
    {
        self.min_threads
    }

    /// A diagnostic rendering of the liveness counters, in place of a
    /// `Debug` implementation: a task list holds no printable tasks.
    pub fn debug_string(&self) -> (r: String)
        ensures
            r@ == counters_rendering(self@.threads_waiting, self@.total_threads),
    {
        format_counters(self.threads_waiting, self.total_threads)
    }

    /// Number of tasks waiting to be executed.
    pub fn pending_len(&self) -> (r: usize)
        ensures
            r == self@.pending.len(),
    {
        self.task_list.len()
    }

    /// A freshly started worker registers itself before doing anything else.
    /// Returns the registration to be released on the worker's exit.
    pub fn worker_started(&mut self) -> (r: Register)
        requires
            old(self)@.total_threads < usize::MAX,
        ensures
            final(self)@ == register_worker(old(self)@),
    {
        let registration = Register::new(&mut self.total_threads);
        proof {
            assert(self@ =~= register_worker(old(self)@));
        }
        registration
    }

    /// A worker's execution context unwinds: its registration is released,
    /// whatever the exit path was. The exiting worker is live and no longer
    /// counted waiting, so strictly fewer workers wait than are live.
    pub fn worker_exited(&mut self, registration: Register)
        requires
            old(self)@.threads_waiting < old(self)@.total_threads,
        ensures
            final(self)@ == unregister_worker(old(self)@),
    {
        registration.release(&mut self.total_threads);
        proof {
            assert(self@ =~= unregister_worker(old(self)@));
        }
    }

    /// A worker found the task list empty and begins waiting. The caller is
    /// a live worker that is not yet counted idle, so strictly fewer workers
    /// wait than live. Returns the registration to be released the instant
    /// a task is found or the worker decides to give up.
    pub fn begin_waiting(&mut self) -> (r: Register)
        requires
            old(self)@.threads_waiting < old(self)@.total_threads,
        ensures
            final(self)@ == begin_wait(old(self)@),
    {
        let registration = Register::new(&mut self.threads_waiting);
        proof {
            assert(self@ =~= begin_wait(old(self)@));
        }
        registration
    }

    /// A waiting worker stops waiting, because it found a task or because it
    /// is about to give up.
    pub fn end_waiting(&mut self, registration: Register)
        requires
            old(self)@.threads_waiting > 0,
        ensures
            final(self)@ == end_wait(old(self)@),
    {
        registration.release(&mut self.threads_waiting);
        proof {
            assert(self@ =~= end_wait(old(self)@));
        }
    }

    /// Tries to take a task without blocking: removes and returns the most
    /// recently queued one, if any.
    pub fn try_take_task(&mut self) -> (r: Option<T>)
        ensures
            old(self)@.pending.len() == 0 ==> r is None && final(self)@ == old(self)@,
            old(self)@.pending.len() > 0 ==> {
                &&& r == Some(old(self)@.pending.last())
                &&& final(self)@ == take_task(old(self)@)
            },
    {
        let r = self.task_list.pop();
        proof {
            if old(self)@.pending.len() == 0 {
                assert(self@ =~= old(self)@);
            } else {
                assert(self@ =~= take_task(old(self)@));
            }
        }
        r
    }

    /// How this worker should wait, re-evaluated on every idle cycle: a
    /// worker within the baseline waits indefinitely, one above it waits
    /// with a timeout. A worker's role is not fixed at spawn time — it is
    /// whatever the current counters say.
    pub fn idle_wait_mode(&self) -> (r: WaitMode)
        ensures
            r == wait_mode_of(self@),
    {
        if self.total_threads <= self.min_threads {
            WaitMode::Indefinite
        } else {
            WaitMode::Timed
        }
    }

    /// Whether a worker whose wait just ended should terminate: only when
    /// the wait timed out and the task list is still empty.
    pub fn should_terminate(&self, timed_out: bool) -> (r: bool)
        ensures
            r == terminates(self@, timed_out),
    {
        timed_out && self.task_list.len() == 0
    }

    /// Appends a task to the pending end of the task list.
    pub fn enqueue(&mut self, task: T)
        ensures
            final(self)@ == enqueue_task(old(self)@, task),
    {
        self.task_list.push(task);
        proof {
            assert(self@ =~= enqueue_task(old(self)@, task));
        }
    }
}

/// The pool handle: the shared state plus the public submission interface.
pub struct TaskPool<T> {
    /// The state shared by the submitter and every worker.
    pub inner: Inner<T>,
}

impl<T> View for TaskPool<T> {
    type V = PoolModel<T>;

    open spec fn view(&self) -> PoolModel<T> {
        self.inner@
    }
}

impl<T> Default for TaskPool<T> {
    /// A pool with the default baseline of [`DEFAULT_THREADS`] workers.
    fn default() -> (r: Self)
        ensures
            r@ == pool_init::<T>(DEFAULT_THREADS as nat),
    {
        Self::new(DEFAULT_THREADS)
    }
}

impl<T> TaskPool<T> {
    /// Creates a pool configured for a baseline of `min_threads` workers.
    /// The caller must then start `min_threads` workers, each with no
    /// initial task; the counters settle only once those workers have
    /// registered and gone idle.
    pub fn new(min_threads: usize) -> (r: Self)
        ensures
            r@ == pool_init::<T>(min_threads as nat),
    {
        TaskPool { inner: Inner::new(min_threads) }
    }

    /// Submits a task, never blocking and never refusing. If no worker is
    /// waiting, the task must be handed to a brand-new worker directly,
    /// bypassing the task list — under sustained load this grows the pool
    /// without bound. Otherwise the task is queued and exactly one idle
    /// worker must be woken.
    pub fn add_task(&mut self, task: T) -> (r: SubmitAction<T>)
        ensures
            old(self)@.threads_waiting == 0 ==> {
                &&& final(self)@ == old(self)@
                &&& r == SubmitAction::Spawn(task)
            },
            old(self)@.threads_waiting > 0 ==> {
                &&& final(self)@ == enqueue_task(old(self)@, task)
                &&& r is Notify
            },
    {
        if self.inner.threads_waiting() == 0 {
            SubmitAction::Spawn(task)
        } else {
            self.inner.enqueue(task);
            SubmitAction::Notify
        }
    }
}

/// Every transition keeps the count of waiting workers at or below the
/// count of live workers, given only what its caller's own position
/// guarantees: a worker that begins waiting or exits is live and not
/// counted waiting, and one that stops waiting is counted waiting.
pub proof fn lemma_transitions_preserve_counters<T>(s: PoolModel<T>, task: T)
    ensures
        counters_wf(pool_init::<T>(s.min_threads)),
        counters_wf(s) ==> counters_wf(register_worker(s)),
        s.threads_waiting < s.total_threads ==> counters_wf(begin_wait(s)),
        s.threads_waiting < s.total_threads ==> counters_wf(unregister_worker(s)),
        counters_wf(s) && s.threads_waiting > 0 ==> counters_wf(end_wait(s)),
        counters_wf(s) ==> counters_wf(enqueue_task(s, task)),
        counters_wf(s) ==> counters_wf(take_task(s)),
{
}

/// The state after `k` baseline workers have settled, each registering
/// itself and then, with the task list empty, beginning to wait.
pub open spec fn settle_baseline<T>(s: PoolModel<T>, k: nat) -> PoolModel<T>
    decreases k,
{
    if k == 0 {
        s
    } else {
        settle_baseline(begin_wait(register_worker(s)), (k - 1) as nat)
    }
}

/// Settling `k` baseline workers raises both counters by `k` and touches
/// nothing else.
pub proof fn lemma_settle_baseline<T>(s: PoolModel<T>, k: nat)
    ensures
        settle_baseline(s, k).total_threads == s.total_threads + k,
        settle_baseline(s, k).threads_waiting == s.threads_waiting + k,
        settle_baseline(s, k).pending == s.pending,
        settle_baseline(s, k).min_threads == s.min_threads,
    decreases k,
{
    if k > 0 {
        lemma_settle_baseline(begin_wait(register_worker(s)), (k - 1) as nat);
    }
}

/// After construction with a baseline of `m` workers, once all `m` have
/// registered and gone idle, exactly `m` workers are live and all of them
/// are waiting.
pub proof fn lemma_startup_settles<T>(m: nat)
    ensures
        settle_baseline(pool_init::<T>(m), m).total_threads == m,
        settle_baseline(pool_init::<T>(m), m).threads_waiting == m,
        settle_baseline(pool_init::<T>(m), m).pending == Seq::<T>::empty(),
{
    lemma_settle_baseline(pool_init::<T>(m), m);
}

/// Submitting one task while some worker is waiting does not change the
/// number of live workers; the worker that serves it stops waiting for the
/// duration of the task — one fewer idle worker — and once it finds the
/// task list empty again it waits again, restoring the idle count to its
/// prior value. The task list is also back to what it was.
pub proof fn lemma_submit_with_idle_worker<T>(s: PoolModel<T>, task: T)
    requires
        s.threads_waiting > 0,
    ensures
        ({
            // The submission queues the task; nothing else changes.
            let submitted = enqueue_task(s, task);
            // The woken worker takes that very task, then stops waiting.
            let serving = end_wait(take_task(submitted));
            // The task done and the list empty, the worker waits again.
            let served = begin_wait(serving);
            &&& submitted.total_threads == s.total_threads
            &&& submitted.threads_waiting == s.threads_waiting
            &&& take_task(submitted).pending == s.pending
            &&& serving.total_threads == s.total_threads
            &&& serving.threads_waiting == s.threads_waiting - 1
            &&& served == s
        }),
{
    let submitted = enqueue_task(s, task);
    assert(take_task(submitted).pending =~= s.pending);
    assert(begin_wait(end_wait(take_task(submitted))) =~= s);
}

/// Submitting a task while no worker is waiting leaves the shared state
/// untouched — the task bypasses the task list — and the brand-new worker
/// it is handed to raises the number of live workers by exactly one when
/// it registers.
pub proof fn lemma_submit_without_idle_worker<T>(s: PoolModel<T>, task: T)
    requires
        s.threads_waiting == 0,
    ensures
        register_worker(s).total_threads == s.total_threads + 1,
        register_worker(s).threads_waiting == 0,
        register_worker(s).pending == s.pending,
{
}

/// A worker above the baseline waits with a timeout, and when that wait
/// expires with the task list still empty it terminates: it stops waiting
/// and unregisters, leaving one fewer live worker.
pub proof fn lemma_elastic_worker_times_out<T>(s: PoolModel<T>, timed_out: bool)
    requires
        s.threads_waiting > 0,
        s.total_threads > s.min_threads,
        s.pending.len() == 0,
        timed_out,
    ensures
        wait_mode_of(s) is Timed,
        terminates(s, timed_out),
        unregister_worker(end_wait(s)).total_threads == s.total_threads - 1,
        unregister_worker(end_wait(s)).threads_waiting == s.threads_waiting - 1,
        unregister_worker(end_wait(s)).pending == s.pending,
{
}

/// The pool's floor: a termination taken while the total still exceeds
/// the configured minimum never brings the total below the minimum, so a
/// settled pool shrinks back exactly to its baseline and no further. The
/// hypothesis is needed: the instant a timed wait expires re-checks only
/// the task list, not the counters, so a worker whose wait expires after
/// the total has already fallen to the minimum exits below it.
pub proof fn lemma_shrink_keeps_the_floor<T>(s: PoolModel<T>)
    requires
        s.threads_waiting > 0,
        s.total_threads > s.min_threads,
    ensures
        unregister_worker(end_wait(s)).total_threads >= s.min_threads,
{
}

/// A baseline worker — one live while the total does not exceed the
/// configured minimum — waits with no timeout, so it never times out and
/// never terminates, regardless of how long it stays idle.
pub proof fn lemma_baseline_worker_never_terminates<T>(s: PoolModel<T>)
    requires
        s.total_threads <= s.min_threads,
    ensures
        wait_mode_of(s) is Indefinite,
        !terminates(s, false),
{
}

/// Stack discipline of the task list: while no worker takes in between —
/// as when every worker is busy — three tasks queued in order are handed
/// out in reverse order, last queued first, and the list is then back to
/// what it was.
pub proof fn lemma_lifo_order<T>(s: PoolModel<T>, t1: T, t2: T, t3: T)
    ensures
        ({
            let queued = enqueue_task(enqueue_task(enqueue_task(s, t1), t2), t3);
            &&& queued.pending.len() == s.pending.len() + 3
            &&& queued.pending.last() == t3
            &&& take_task(queued).pending.last() == t2
            &&& take_task(take_task(queued)).pending.last() == t1
            &&& take_task(take_task(take_task(queued))).pending == s.pending
        }),
{
    let queued = enqueue_task(enqueue_task(enqueue_task(s, t1), t2), t3);
    assert(take_task(queued).pending =~= enqueue_task(enqueue_task(s, t1), t2).pending);
    assert(take_task(take_task(queued)).pending =~= enqueue_task(s, t1).pending);
    assert(take_task(take_task(take_task(queued))).pending =~= s.pending);
}

} // verus!
