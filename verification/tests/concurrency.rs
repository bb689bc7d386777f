use crabberbot::concurrency::ConcurrencyLimiter;

#[test]
fn two_attempts_for_one_chat_yield_one_guard() {
    let mut limiter = ConcurrencyLimiter::new();
    let first = limiter.try_lock(42);
    let second = limiter.try_lock(42);
    assert!(first.is_some());
    assert!(second.is_none());
    assert_eq!(first.unwrap().chat_id(), 42);
}

#[test]
fn a_new_limiter_holds_no_chat() {
    let limiter = ConcurrencyLimiter::new();
    assert!(!limiter.is_locked(1));
    assert!(!limiter.is_locked(-1));
}

#[test]
fn a_released_chat_is_free_again() {
    let mut limiter = ConcurrencyLimiter::new();
    let guard = limiter.try_lock(7).unwrap();
    assert!(limiter.is_locked(7));
    limiter.unlock(guard);
    assert!(!limiter.is_locked(7));
    assert!(limiter.try_lock(7).is_some());
}

#[test]
fn a_refused_attempt_leaves_the_chat_held() {
    let mut limiter = ConcurrencyLimiter::new();
    let guard = limiter.try_lock(7).unwrap();
    assert!(limiter.try_lock(7).is_none());
    assert!(limiter.is_locked(7));
    limiter.unlock(guard);
    assert!(!limiter.is_locked(7));
}

#[test]
fn different_chats_do_not_hinder_each_other() {
    let mut limiter = ConcurrencyLimiter::new();
    let first = limiter.try_lock(1).unwrap();
    let second = limiter.try_lock(2).unwrap();
    assert!(limiter.try_lock(1).is_none());
    limiter.unlock(first);
    assert!(limiter.is_locked(2));
    assert!(limiter.try_lock(1).is_some());
    limiter.unlock(second);
    assert!(!limiter.is_locked(2));
}
