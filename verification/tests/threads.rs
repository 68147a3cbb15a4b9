use rpi_os::thread::{ReadyThreads, StopAction, Thread, Threads, STACK_BASE, STACK_SIZE, START_FRAME_SIZE};
use rpi_os::timer::Duration;

#[test]
fn new_threads_get_fresh_ids_and_stacks() {
    let mut ts = Threads::new();
    let a = Thread::new(&mut ts);
    let b = Thread::new_from_function(&mut ts);
    assert_eq!(a.id(), 1);
    assert_eq!(b.id(), 2);
    assert_eq!(a.sp(), STACK_BASE + STACK_SIZE - START_FRAME_SIZE);
    assert_eq!(b.sp(), STACK_BASE + 2 * STACK_SIZE - START_FRAME_SIZE);
    assert_eq!(a.runtime(), Duration::zero());
}

#[test]
fn runtime_accumulates_between_start_and_stop() {
    let mut ts = Threads::new();
    let mut t = Thread::new(&mut ts);
    t.start(Duration::new(1, 0));
    t.stop_running(Duration::new(1, 500));
    t.start(Duration::new(2, 0));
    t.stop_running(Duration::new(3, 0));
    assert_eq!(t.runtime(), Duration::new(1, 500));
}

#[test]
fn ready_queue_hands_out_least_run_thread() {
    let mut ts = Threads::new();
    let mut busy = Thread::new(&mut ts);
    busy.start(Duration::zero());
    busy.stop_running(Duration::new(5, 0));
    let fresh = Thread::new(&mut ts);
    let mut q = ReadyThreads::new();
    q.add(busy);
    q.add(fresh);
    assert_eq!(q.get().unwrap().id(), fresh.id());
    assert_eq!(q.get().unwrap().id(), busy.id());
    assert!(q.get().is_none());
}

#[test]
fn switch_takes_ready_thread_or_nothing() {
    let mut ts = Threads::new();
    ts.init(2);
    assert!(ts.switch().is_none());
    let t = Thread::new(&mut ts);
    ts.schedule(t);
    assert_eq!(ts.switch().unwrap().id(), t.id());
    assert!(ts.switch().is_none());
}

#[test]
fn stopping_last_active_thread_shuts_down() {
    let mut ts = Threads::new();
    ts.init(2);
    let _only = Thread::new(&mut ts);
    assert!(matches!(ts.stop(0), StopAction::Shutdown));
}

#[test]
fn stopping_with_others_active_runs_ready_or_idle_thread() {
    let mut ts = Threads::new();
    ts.init(2);
    let a = Thread::new(&mut ts);
    let b = Thread::new(&mut ts);
    let _c = Thread::new(&mut ts);
    ts.schedule(b);
    match ts.stop(1) {
        StopAction::SwitchTo(t) => assert_eq!(t.id(), b.id()),
        StopAction::Shutdown => panic!("another thread was active"),
    }
    match ts.stop(1) {
        StopAction::SwitchTo(t) => assert!(t.id() != a.id() && t.id() != b.id()),
        StopAction::Shutdown => panic!("another thread was active"),
    }
}

#[test]
fn every_new_thread_runs_once_before_any_runs_again() {
    let mut ts = Threads::new();
    ts.init(1);
    let mut main = Thread::new(&mut ts);
    let mut ids = Vec::new();
    for _ in 0..4 {
        let t = Thread::new(&mut ts);
        ids.push(t.id());
        ts.schedule(t);
    }
    let mut seen = Vec::new();
    let mut clock: u64 = 0;
    for _ in 0..4 {
        main.start(Duration::new(clock, 0));
        clock += 1;
        main.stop_running(Duration::new(clock, 0));
        let next = ts.switch().unwrap();
        assert_eq!(next.runtime(), Duration::zero());
        ts.schedule(main);
        seen.push(next.id());
    }
    seen.sort();
    assert_eq!(seen, ids);
    assert_eq!(ts.switch().unwrap().id(), main.id());
}
