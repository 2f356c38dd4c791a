use grove::cancellation::{CancelState, CancellationToken};
use std::sync::atomic::{AtomicUsize, Ordering};
use std::sync::Arc;
use std::task::{Wake, Waker};

struct CountingWaker(AtomicUsize);

impl Wake for CountingWaker {
    fn wake(self: Arc<Self>) {
        self.0.fetch_add(1, Ordering::SeqCst);
    }
}

fn counting_waker() -> (Arc<CountingWaker>, Waker) {
    let counter = Arc::new(CountingWaker(AtomicUsize::new(0)));
    let waker = Waker::from(counter.clone());
    (counter, waker)
}

#[test]
fn new_token_is_not_cancelled() {
    let token = CancellationToken::new();
    assert!(!token.is_cancelled());
}

#[test]
fn cancel_is_seen_by_clones_and_children() {
    let token = CancellationToken::default();
    let clone = token.clone();
    let child = token.child_token();
    let grandchild = child.child_token();
    token.cancel();
    assert!(token.is_cancelled());
    assert!(clone.is_cancelled());
    assert!(child.is_cancelled());
    assert!(grandchild.is_cancelled());
}

#[test]
fn child_cancel_leaves_parent_alone() {
    let parent = CancellationToken::new();
    let child = parent.child_token();
    let grandchild = child.child_token();
    child.cancel();
    assert!(child.is_cancelled());
    assert!(grandchild.is_cancelled());
    assert!(!parent.is_cancelled());
    assert!(!parent.clone().is_cancelled());
}

#[test]
fn cancel_wakes_waiting_tasks_once() {
    let token = CancellationToken::new();
    let waiting = token.cancelled();
    let (counter, waker) = counting_waker();
    assert!(!waiting.poll_with(waker));
    assert_eq!(counter.0.load(Ordering::SeqCst), 0);
    token.cancel();
    assert_eq!(counter.0.load(Ordering::SeqCst), 1);
    token.cancel();
    assert_eq!(counter.0.load(Ordering::SeqCst), 1);
}

#[test]
fn poll_after_cancel_is_ready() {
    let token = CancellationToken::new();
    token.cancel();
    let (counter, waker) = counting_waker();
    assert!(token.cancelled().poll_with(waker));
    assert_eq!(counter.0.load(Ordering::SeqCst), 0);
}

#[test]
fn cancel_state_hands_back_wakers_in_order() {
    let mut state = CancelState::new();
    let (a, wa) = counting_waker();
    let (b, wb) = counting_waker();
    assert!(!state.register(wa));
    assert!(!state.register(wb));
    assert!(!state.is_cancelled());
    let to_wake = state.cancel();
    assert_eq!(to_wake.len(), 2);
    assert!(state.is_cancelled());
    for w in to_wake {
        w.wake();
    }
    assert_eq!(a.0.load(Ordering::SeqCst), 1);
    assert_eq!(b.0.load(Ordering::SeqCst), 1);
    assert!(state.cancel().is_empty());
    let (_, wc) = counting_waker();
    assert!(state.register(wc));
}

#[test]
fn parent_cancel_completes_child_futures_only_once_cancelled() {
    let parent = CancellationToken::new();
    let child = parent.child_token();
    let parent_waiting = parent.cancelled();
    let child_waiting = child.cancelled();
    let (parent_counter, parent_waker) = counting_waker();
    let (child_counter, child_waker) = counting_waker();
    assert!(!parent_waiting.poll_with(parent_waker));
    assert!(!child_waiting.poll_with(child_waker));
    child.cancel();
    assert_eq!(parent_counter.0.load(Ordering::SeqCst), 0);
    assert_eq!(child_counter.0.load(Ordering::SeqCst), 1);
    let (_, again) = counting_waker();
    assert!(!parent_waiting.poll_with(again));
    parent.cancel();
    assert_eq!(parent_counter.0.load(Ordering::SeqCst), 1);
    let (_, last) = counting_waker();
    assert!(parent_waiting.poll_with(last));
}
