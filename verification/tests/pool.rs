use road_balancer::util::message_queue::Queue;
use road_balancer::util::thread_pool::Register;
use road_balancer::util::thread_pool::SubmitAction;
use road_balancer::util::thread_pool::TaskPool;
use road_balancer::util::thread_pool::WaitMode;
use road_balancer::util::thread_pool::DEFAULT_THREADS;
use road_balancer::util::thread_pool::DEFAULT_THREAD_TIMEOUT;

#[test]
fn test_create() {
    let mut tp: TaskPool<u32> = TaskPool::new(10);
    // Let the baseline workers start: each registers, finds no task and
    // begins to wait.
    let mut guards = Vec::new();
    for _ in 0..10 {
        let live = tp.inner.worker_started();
        assert!(tp.inner.try_take_task().is_none());
        let waiting = tp.inner.begin_waiting();
        guards.push((live, waiting));
    }
    println!("{}", tp.inner.debug_string());
    assert_eq!(10, tp.inner.threads_waiting());
    assert_eq!(10, tp.inner.total_threads());
}

#[test]
fn debug_string_shows_the_counters() {
    let mut tp: TaskPool<u32> = TaskPool::new(2);
    let live = tp.inner.worker_started();
    assert_eq!(
        "TaskPool { threads_waiting: 0, total_threads: 1 }",
        tp.inner.debug_string()
    );
    tp.inner.worker_exited(live);
}

#[test]
fn test_thread_is_killed() {
    let mut tp: TaskPool<&str> = TaskPool::new(1);
    // The first task arrives before the baseline worker has settled: no
    // worker is waiting, so a fresh worker is spawned for it directly.
    match tp.add_task("first task") {
        SubmitAction::Spawn(t) => assert_eq!("first task", t),
        SubmitAction::Notify => panic!("expected a spawn"),
    }
    let live_elastic = tp.inner.worker_started();
    let live_baseline = tp.inner.worker_started();
    assert!(tp.inner.try_take_task().is_none());
    let mut waiting_baseline = tp.inner.begin_waiting();
    assert_eq!(2, tp.inner.total_threads(), "first task started");
    // The second task arrives while the baseline worker waits: it is
    // queued, the worker is woken and serves it.
    match tp.add_task("second task") {
        SubmitAction::Spawn(_) => panic!("expected a queued task"),
        SubmitAction::Notify => {},
    }
    assert_eq!("second task", tp.inner.try_take_task().unwrap());
    tp.inner.end_waiting(waiting_baseline);
    assert_eq!(2, tp.inner.total_threads(), "second task started");
    // Both tasks finish; both workers find the task list empty and wait.
    let waiting_elastic = tp.inner.begin_waiting();
    waiting_baseline = tp.inner.begin_waiting();
    // Two workers live, one configured: the idle wait is bounded, and once
    // it expires with the list still empty, the elastic worker exits.
    assert_eq!(WaitMode::Timed, tp.inner.idle_wait_mode());
    assert!(tp.inner.should_terminate(true));
    tp.inner.end_waiting(waiting_elastic);
    tp.inner.worker_exited(live_elastic);
    // The survivor is within the baseline again: it waits forever.
    assert_eq!(WaitMode::Indefinite, tp.inner.idle_wait_mode());
    assert_eq!(1, tp.inner.total_threads(), "second task should have died");
    tp.inner.end_waiting(waiting_baseline);
    tp.inner.worker_exited(live_baseline);
    assert_eq!(0, tp.inner.total_threads());
}

#[test]
fn submit_with_idle_worker_keeps_total() {
    let mut tp: TaskPool<u32> = TaskPool::new(1);
    let live = tp.inner.worker_started();
    let waiting = tp.inner.begin_waiting();
    let total_before = tp.inner.total_threads();
    let idle_before = tp.inner.threads_waiting();
    match tp.add_task(7) {
        SubmitAction::Spawn(_) => panic!("expected a queued task"),
        SubmitAction::Notify => {},
    }
    assert_eq!(total_before, tp.inner.total_threads());
    // The woken worker takes the task and stops waiting for its duration.
    assert_eq!(7, tp.inner.try_take_task().unwrap());
    tp.inner.end_waiting(waiting);
    assert_eq!(idle_before - 1, tp.inner.threads_waiting());
    assert_eq!(total_before, tp.inner.total_threads());
    // The task done and the list empty, the worker waits again.
    assert!(tp.inner.try_take_task().is_none());
    let waiting = tp.inner.begin_waiting();
    assert_eq!(idle_before, tp.inner.threads_waiting());
    assert_eq!(total_before, tp.inner.total_threads());
    tp.inner.end_waiting(waiting);
    tp.inner.worker_exited(live);
}

#[test]
fn submit_without_idle_worker_grows_total_by_one() {
    let mut tp: TaskPool<u32> = TaskPool::new(1);
    let live = tp.inner.worker_started();
    assert_eq!(0, tp.inner.threads_waiting());
    let total_before = tp.inner.total_threads();
    let task = match tp.add_task(9) {
        SubmitAction::Spawn(t) => t,
        SubmitAction::Notify => panic!("expected a spawn"),
    };
    assert_eq!(9, task);
    // The task bypassed the queue and total is untouched until the new
    // worker registers; then it is up by exactly one.
    assert_eq!(0, tp.inner.pending_len());
    assert_eq!(total_before, tp.inner.total_threads());
    let live_new = tp.inner.worker_started();
    assert_eq!(total_before + 1, tp.inner.total_threads());
    tp.inner.worker_exited(live_new);
    tp.inner.worker_exited(live);
}

#[test]
fn task_list_is_popped_in_reverse_push_order() {
    let mut tp: TaskPool<u32> = TaskPool::new(1);
    let live = tp.inner.worker_started();
    tp.inner.enqueue(1);
    tp.inner.enqueue(2);
    tp.inner.enqueue(3);
    assert_eq!(3, tp.inner.pending_len());
    assert_eq!(3, tp.inner.try_take_task().unwrap());
    assert_eq!(2, tp.inner.try_take_task().unwrap());
    assert_eq!(1, tp.inner.try_take_task().unwrap());
    assert!(tp.inner.try_take_task().is_none());
    tp.inner.worker_exited(live);
}

#[test]
fn baseline_worker_waits_indefinitely() {
    let mut tp: TaskPool<u32> = TaskPool::new(3);
    let live = tp.inner.worker_started();
    let waiting = tp.inner.begin_waiting();
    // One worker live, three configured: within the baseline.
    assert_eq!(WaitMode::Indefinite, tp.inner.idle_wait_mode());
    // A wait without a timeout never expires, so it never terminates.
    assert!(!tp.inner.should_terminate(false));
    tp.inner.end_waiting(waiting);
    tp.inner.worker_exited(live);
}

#[test]
fn woken_worker_with_a_task_does_not_terminate() {
    let mut tp: TaskPool<u32> = TaskPool::new(0);
    let live = tp.inner.worker_started();
    assert_eq!(WaitMode::Timed, tp.inner.idle_wait_mode());
    tp.inner.enqueue(4);
    // Even after a timeout, a non-empty task list keeps the worker alive.
    assert!(!tp.inner.should_terminate(true));
    assert!(!tp.inner.should_terminate(false));
    tp.inner.worker_exited(live);
}

#[test]
fn default_pool_uses_the_default_baseline() {
    let tp: TaskPool<u32> = TaskPool::default();
    assert_eq!(DEFAULT_THREADS, tp.inner.min_threads());
    assert_eq!(0, tp.inner.total_threads());
    assert_eq!(0, tp.inner.threads_waiting());
    assert_eq!(0, tp.inner.pending_len());
    assert_eq!(10, DEFAULT_THREADS);
    assert_eq!(3000, DEFAULT_THREAD_TIMEOUT);
}

#[test]
fn register_counts_enter_and_exit() {
    let mut count: usize = 0;
    let first = Register::new(&mut count);
    assert_eq!(1, count);
    let second = Register::new(&mut count);
    assert_eq!(2, count);
    second.release(&mut count);
    first.release(&mut count);
    assert_eq!(0, count);
}

#[test]
fn queue_pops_in_reverse_push_order() {
    let mut q: Queue<u32> = Queue::new();
    assert_eq!(None, q.pop());
    q.push(1);
    q.push(2);
    q.push(3);
    assert_eq!(Some(3), q.pop());
    assert_eq!(Some(2), q.pop());
    assert_eq!(Some(1), q.pop());
    assert_eq!(None, q.pop());
}
