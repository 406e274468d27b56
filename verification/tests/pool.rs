use trellis::app::App;
use trellis::errors::{AppState, WorkerError, WorkerErrorType};
use trellis::middleware::{combined_chain, first_abort, Middleware};
use trellis::empty_resolution::EmptyResolution;
use trellis::queue::{DequeOutcome, Queue, QueueState};
use trellis::work_manager::WorkManager;
use trellis::worker::Worker;

#[test]
fn queue_is_first_in_first_out() {
    // Each accepted item enters the backlog once and leaves it once, in
    // arrival order.
    let mut q: Queue<i32> = Queue::new();
    q.waiters = 3;
    for v in [10, 20, 30] {
        assert!(matches!(q.queue(v), QueueState::Free));
    }
    assert_eq!(q.waiters, 0);
    for expected in [10, 20, 30] {
        match q.deque(false) {
            DequeOutcome::Item(v) => assert_eq!(v, expected),
            _ => panic!("an item was owed"),
        }
    }
    // The drained queue registers the caller as a waiter.
    assert!(matches!(q.deque(false), DequeOutcome::Wait));
    assert_eq!(q.waiters, 1);
    // The cancel flag wins over everything.
    assert!(matches!(q.deque(true), DequeOutcome::Cancelled));
}

#[test]
fn enqueue_blocks_without_waiters() {
    // Blocked if and only if no dequeuer was waiting, and the very value
    // comes back for the retry.
    let mut q: Queue<String> = Queue::new();
    let submitted = String::from("job");
    match q.queue(submitted) {
        QueueState::Blocked(returned) => assert_eq!(returned, "job"),
        QueueState::Free => panic!("no waiter existed, the item must come back"),
    }
    assert!(q.work.is_empty());

    q.waiters = 1;
    assert!(matches!(q.queue(String::from("job")), QueueState::Free));
    assert_eq!(q.work.len(), 1);
}

#[test]
fn worker_lifecycle_errors() {
    let mut w = Worker::new();

    let premature = w.close(true);
    assert_eq!(premature.unwrap_err().err_type, WorkerErrorType::NoTaskRunning);

    assert!(w.start_worker().is_ok());
    let again = w.start_worker();
    assert_eq!(again.unwrap_err().err_type, WorkerErrorType::AlreadyRunning);

    assert!(w.close(true).is_ok());
    let twice = w.close(true);
    assert_eq!(twice.unwrap_err().err_type, WorkerErrorType::AlreadyClosed);

    let mut w2 = Worker::new();
    assert!(w2.start_worker().is_ok());
    let failed_join = w2.close(false);
    assert_eq!(failed_join.unwrap_err().err_type, WorkerErrorType::TaskJoinFailure);

    assert_eq!(
        WorkerError::new(WorkerErrorType::AlreadyRunning).get_error_str(),
        "the worker was already running"
    );
}

#[test]
fn close_and_finish_work_closes_every_worker() {
    let mut wm: WorkManager<i32> = WorkManager::new(4);
    assert_eq!(wm.worker_count(), 4);
    wm.close_and_finish_work();
    for w in &wm.workers {
        assert!(w.started && w.closed);
    }
    assert_eq!(wm.get_queue().waiters, 0);
}

#[test]
fn backpressure_scaling() {
    // With an initial pool of one worker and scale factor two, a stream of
    // submissions grows the pool 1 -> 2 -> 4 while every job is accepted
    // exactly once, in order.
    let mut wm: WorkManager<i32> = WorkManager::new(1);
    assert_eq!(wm.size(), 1);

    let grew = wm.queue_work_scaling(1, 2);
    assert!(!grew, "the initial worker was waiting");
    assert_eq!(wm.size(), 1);

    let grew = wm.queue_work_scaling(2, 2);
    assert!(grew, "no worker was waiting, the pool must grow");
    assert_eq!(wm.size(), 2);

    let grew = wm.queue_work_scaling(3, 2);
    assert!(grew);
    assert_eq!(wm.size(), 4);

    assert_eq!(wm.work.work, vec![1, 2, 3]);
}

#[test]
fn queue_work_reports_backpressure() {
    let mut wm: WorkManager<i32> = WorkManager::new(1);
    assert!(matches!(wm.queue_work(7), QueueState::Free));
    match wm.queue_work(8) {
        QueueState::Blocked(v) => assert_eq!(v, 8),
        QueueState::Free => panic!("the only worker was already taken"),
    }
    wm.scale_workers(3);
    assert_eq!(wm.size(), 3);
    assert!(matches!(wm.queue_work(8), QueueState::Free));
}

#[test]
fn app_lifecycle() {
    let mut app: App<i32, i32> = App::new();
    assert_eq!(app.state(), AppState::Closed);
    assert_eq!(app.worker_scale_factor, 10);

    assert_eq!(app.start(), Ok(AppState::Running));
    assert_eq!(app.state(), AppState::Running);
    assert_eq!(app.start(), Err(AppState::Running));

    assert_eq!(app.close(), Ok(AppState::Closed));
    assert_eq!(app.state(), AppState::Closed);
    assert_eq!(app.close(), Err(AppState::Closed));

    // Restart is forbidden: the listener was consumed by the first start.
    assert_eq!(app.start(), Err(AppState::Closed));
}

#[test]
fn middleware_short_circuit() {
    // With the chain [Next, InvalidEmpty(401), Next], the endpoint is not
    // invoked and the emitted resolution carries status 401.
    let outcomes: Vec<Middleware<EmptyResolution>> = vec![
        Middleware::Next,
        Middleware::InvalidEmpty(401),
        Middleware::Next,
    ];
    match first_abort(outcomes) {
        Some((i, Middleware::InvalidEmpty(code))) => {
            assert_eq!(i, 1);
            assert_eq!(code, 401);
            let emitted = EmptyResolution::new(code);
            assert_eq!(emitted.status_code, 401);
        }
        _ => panic!("the chain must stop at the second middleware"),
    }

    let all_next: Vec<Middleware<EmptyResolution>> = vec![Middleware::Next, Middleware::Next];
    assert!(first_abort(all_next).is_none(), "a clean chain reaches the endpoint");

    let invalid: Vec<Middleware<EmptyResolution>> = vec![
        Middleware::Invalid(EmptyResolution::new(403)),
        Middleware::Next,
    ];
    match first_abort(invalid) {
        Some((0, Middleware::Invalid(r))) => assert_eq!(r.status_code, 403),
        _ => panic!("the chain must stop at once"),
    }
}

#[test]
fn middleware_chain_order() {
    // Global middleware runs first, then the route's own, then the endpoint.
    let mut app: App<i32, String> = App::new();
    app.use_middleware(String::from("g"));

    let route_mw = vec![String::from("r1"), String::from("r2")];
    let chain = combined_chain(app.global_middleware.clone(), Some(route_mw));
    assert_eq!(chain, vec!["g", "r1", "r2"]);

    let mut observed: Vec<String> = chain;
    let outcomes: Vec<Middleware<i32>> =
        observed.iter().map(|_| Middleware::Next).collect();
    if first_abort(outcomes).is_none() {
        observed.push(String::from("e"));
    }
    assert_eq!(observed, vec!["g", "r1", "r2", "e"]);

    assert_eq!(
        combined_chain(vec![String::from("g")], None),
        vec![String::from("g")]
    );
}
