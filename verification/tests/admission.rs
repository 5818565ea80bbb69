use tscrapingbot_rs::admission::AdmissionController;

#[test]
fn capacity_bounds_the_tasks_in_flight() {
    let mut c = AdmissionController::new(2);
    assert_eq!(c.capacity(), 2);
    assert!(c.acquire("a"));
    assert!(c.acquire("b"));
    assert!(!c.acquire("c"));
    assert_eq!(c.in_flight(), 2);
    assert!(!c.contains("c"));
    assert!(c.begin("a"));
    assert!(c.begin("b"));
    assert_eq!(c.running(), 2);
    assert!(c.running() <= c.capacity());
    assert!(c.finish("a"));
    assert!(c.acquire("c"));
    assert!(c.begin("c"));
    assert_eq!(c.running(), 2);
    assert_eq!(c.in_flight(), 2);
}

#[test]
fn tasks_of_one_key_take_turns() {
    let mut c = AdmissionController::new(5);
    assert!(c.acquire("user-1"));
    assert!(c.acquire("user-1"));
    assert!(c.acquire("user-2"));
    assert_eq!(c.holders("user-1"), 2);
    assert_eq!(c.registered(), 2);
    assert!(c.begin("user-1"));
    assert!(c.is_running("user-1"));
    // The second task of the same key waits, one of another key does not.
    assert!(!c.begin("user-1"));
    assert!(c.begin("user-2"));
    assert_eq!(c.running(), 2);
    assert!(c.finish("user-1"));
    assert!(!c.is_running("user-1"));
    assert_eq!(c.holders("user-1"), 1);
    assert!(c.begin("user-1"));
    assert_eq!(c.running(), 2);
}

#[test]
fn registry_forgets_a_key_with_its_last_task() {
    let mut c = AdmissionController::new(3);
    assert!(c.acquire("k"));
    assert!(c.acquire("k"));
    assert!(c.begin("k"));
    assert!(c.finish("k"));
    assert!(c.contains("k"));
    assert!(c.begin("k"));
    assert!(c.finish("k"));
    assert!(!c.contains("k"));
    assert_eq!(c.holders("k"), 0);
    assert_eq!(c.registered(), 0);
    assert_eq!(c.in_flight(), 0);
    assert_eq!(c.running(), 0);
}

#[test]
fn steps_that_do_not_apply_change_nothing() {
    let mut c = AdmissionController::new(1);
    assert!(!c.begin("x"));
    assert!(!c.finish("x"));
    assert!(!c.withdraw("x"));
    assert!(c.acquire("x"));
    assert!(!c.finish("x"));
    assert_eq!(c.in_flight(), 1);
    assert!(c.begin("x"));
    // The only task of the key executes: none waits, so none can give up.
    assert!(!c.withdraw("x"));
    assert_eq!(c.holders("x"), 1);
    assert_eq!(c.in_flight(), 1);
}

#[test]
fn a_waiting_task_can_give_up() {
    let mut c = AdmissionController::new(3);
    assert!(c.acquire("x"));
    assert!(c.acquire("x"));
    assert!(c.begin("x"));
    assert!(c.withdraw("x"));
    assert!(c.is_running("x"));
    assert_eq!(c.holders("x"), 1);
    assert_eq!(c.in_flight(), 1);
    assert!(c.finish("x"));
    assert!(!c.contains("x"));
    assert!(c.acquire("y"));
    assert!(c.withdraw("y"));
    assert!(!c.contains("y"));
    assert_eq!(c.in_flight(), 0);
}

#[test]
fn a_pool_without_permits_admits_nothing() {
    let mut c = AdmissionController::new(0);
    assert!(!c.acquire("a"));
    assert_eq!(c.in_flight(), 0);
    assert_eq!(c.registered(), 0);
}

#[test]
fn removing_a_key_keeps_the_others() {
    let mut c = AdmissionController::new(5);
    assert!(c.acquire("a"));
    assert!(c.acquire("b"));
    assert!(c.acquire("c"));
    assert!(c.begin("b"));
    assert!(c.begin("c"));
    assert!(c.finish("b"));
    assert!(c.contains("a"));
    assert!(!c.contains("b"));
    assert!(c.is_running("c"));
    assert!(!c.is_running("a"));
    assert_eq!(c.holders("a"), 1);
    assert_eq!(c.holders("c"), 1);
    assert_eq!(c.in_flight(), 2);
}
