use http_cmp::counter::{
    GetCounterResponse, IncrementCounterRequest, IncrementCounterResponse, SharedCounter,
    SwapCounterRequest, SwapCounterResponse,
};

#[test]
fn counter_begins_at_zero() {
    assert_eq!(SharedCounter::new().get().cur(), 0);
}

#[test]
fn increment_tells_the_value_before() {
    let counter = SharedCounter::new();
    assert_eq!(counter.increment(15).prev(), 0);
    assert_eq!(counter.increment(4).prev(), 15);
    assert_eq!(counter.get().cur(), 19);
}

#[test]
fn swap_tells_both_values() {
    let counter = SharedCounter::new();
    let _ = counter.increment(3);
    let response = counter.swap(155);
    assert_eq!(response.prev(), 3);
    assert_eq!(response.cur(), 155);
    assert_eq!(counter.get().cur(), 155);
}

#[test]
fn clones_share_one_value() {
    let counter = SharedCounter::new();
    let other = counter.clone();
    let _ = counter.increment(2);
    assert_eq!(other.increment(5).prev(), 2);
    assert_eq!(counter.get().cur(), 7);
}

#[test]
fn value_starts_over_behind_the_largest() {
    let counter = SharedCounter::new();
    let _ = counter.swap(usize::MAX);
    assert_eq!(counter.increment(3).prev(), usize::MAX);
    assert_eq!(counter.get().cur(), 2);
}

#[test]
fn increments_add_up_in_any_order() {
    let one = SharedCounter::new();
    let two = SharedCounter::new();
    for num in [1usize, 20, 300] {
        let _ = one.increment(num);
    }
    for num in [300usize, 1, 20] {
        let _ = two.increment(num);
    }
    assert_eq!(one.get().cur(), 321);
    assert_eq!(two.get().cur(), 321);
}

#[test]
fn requests_and_responses_hold_their_values() {
    assert_eq!(IncrementCounterRequest::new(15).new, 15);
    assert_eq!(SwapCounterRequest::new(155).new, 155);
    assert_eq!(IncrementCounterResponse::of(4).prev(), 4);
    assert_eq!(SwapCounterResponse::of(4, 5).prev(), 4);
    assert_eq!(SwapCounterResponse::of(4, 5).cur(), 5);
    assert_eq!(GetCounterResponse::of(6).cur(), 6);
}

#[test]
fn ones_count_up() {
    let counter = SharedCounter::new();
    let _ = counter.swap(usize::MAX - 1);
    let found: Vec<usize> = (0..4).map(|_| counter.clone().increment(1).prev()).collect();
    assert_eq!(found, [usize::MAX - 1, usize::MAX, 0, 1]);
}

#[test]
fn additions_count_from_the_last_swap_on() {
    let counter = SharedCounter::new();
    let _ = counter.increment(100);
    let _ = counter.swap(7);
    let _ = counter.increment(20);
    let _ = counter.increment(3);
    assert_eq!(counter.get().cur(), 30);
}

#[test]
fn swapping_back_restores() {
    let counter = SharedCounter::new();
    let _ = counter.increment(42);
    let found = counter.swap(9).prev();
    let back = counter.swap(found);
    assert_eq!((back.prev(), back.cur()), (9, 42));
    assert_eq!(counter.get().cur(), 42);
}

#[test]
fn reads_without_a_change_between_them_agree() {
    let counter = SharedCounter::new();
    let other = counter.clone();
    let _ = counter.increment(4);
    let _ = other.swap(11);
    assert_eq!(counter.get().cur(), 11);
    assert_eq!(counter.get().cur(), other.get().cur());
}
