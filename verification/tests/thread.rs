use libaeon::thread::Thread;

fn new_thread() -> Thread<usize, &'static str> {
    Thread::new(Some("handle"))
}

#[test]
fn new_thread_has_nothing_to_do() {
    let mut thread = new_thread();

    assert_eq!(thread.process_queue_size(), 0);
    assert!(!thread.should_stop());
    assert!(!thread.is_isolated());
    assert!(!thread.wake_up);
    assert!(thread.wait_for_work());
    assert_eq!(thread.take_join_handle(), Some("handle"));
    assert_eq!(thread.take_join_handle(), None);
}

#[test]
fn isolated_thread_is_isolated() {
    let thread: Thread<usize, ()> = Thread::isolated(None);

    assert!(thread.is_isolated());
    assert!(thread.join_handle.is_none());
    assert!(!thread.should_stop());
    assert_eq!(thread.process_queue_size(), 0);
}

#[test]
fn schedule_wakes_the_worker() {
    let mut thread = new_thread();

    thread.schedule(7);

    assert!(thread.wake_up);
    assert!(!thread.wait_for_work());
    assert_eq!(thread.process_queue_size(), 1);
}

#[test]
fn pop_process_takes_the_process_scheduled_last() {
    let mut thread = new_thread();

    thread.schedule(1);
    thread.schedule(2);
    thread.schedule(3);

    assert_eq!(thread.pop_process(), 3);
    assert!(!thread.wake_up);
    // There is work left: no wait, although the worker is not woken.
    assert!(!thread.wait_for_work());
    assert_eq!(thread.pop_process(), 2);

    thread.schedule(4);

    assert_eq!(thread.pop_process(), 4);
    assert_eq!(thread.pop_process(), 1);
    assert_eq!(thread.process_queue_size(), 0);
    assert!(thread.wait_for_work());
}

#[test]
fn stop_wakes_the_worker_for_good() {
    let mut thread = new_thread();

    thread.stop();

    assert!(thread.should_stop());
    assert!(thread.wake_up);
    assert!(!thread.wait_for_work());

    thread.schedule(1);
    thread.pop_process();

    // Stopped: no wait, although the queue is empty and the worker is not woken.
    assert!(!thread.wake_up);
    assert!(!thread.wait_for_work());
}
