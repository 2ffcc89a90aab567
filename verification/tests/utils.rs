use proximity::utils::{wait_for, wait_for_all, wait_for_any, FutureState, Strategy};
use std::future::Future;
use std::pin::Pin;
use std::task::{Context, Poll, Waker};

/// A task that is pending for a given number of polls and then returns its value.
struct Countdown {
    polls_left: usize,
    value: u32,
}

impl Future for Countdown {
    type Output = u32;

    fn poll(mut self: Pin<&mut Self>, _cx: &mut Context<'_>) -> Poll<u32> {
        if self.polls_left == 0 {
            Poll::Ready(self.value)
        } else {
            self.polls_left -= 1;
            Poll::Pending
        }
    }
}

fn countdown(polls_left: usize, value: u32) -> Countdown {
    Countdown { polls_left, value }
}

fn shape(states: &[FutureState<Countdown>]) -> Vec<Option<u32>> {
    states
        .iter()
        .map(|state| match state {
            FutureState::Ready(value) => Some(*value),
            FutureState::Pending(_) => None,
        })
        .collect()
}

#[test]
fn any_hands_back_the_whole_snapshot_and_all_resumes_on_it() {
    let mut cx = Context::from_waker(Waker::noop());
    let tasks = vec![countdown(2, 10), countdown(1, 11), countdown(0, 12)];

    let mut any = wait_for_any(tasks);
    let snapshot = any.poll(&mut cx).unwrap();
    assert_eq!(snapshot.len(), 3);
    assert_eq!(shape(&snapshot), vec![None, None, Some(12)]);
    assert_eq!(any.len(), 0);

    let mut all = wait_for_all(snapshot);
    assert!(all.poll(&mut cx).is_none());
    assert_eq!(all.count_ready(), 2);
    let results = all.poll(&mut cx).unwrap();
    assert_eq!(shape(&results), vec![Some(10), Some(11), Some(12)]);
}

#[test]
fn all_over_no_task_is_over_at_once() {
    let mut cx = Context::from_waker(Waker::noop());
    let tasks: Vec<Countdown> = vec![];
    let mut all = wait_for_all(tasks);
    let results = all.poll(&mut cx).unwrap();
    assert!(results.is_empty());
}

#[test]
fn any_over_no_task_is_never_over() {
    let mut cx = Context::from_waker(Waker::noop());
    let tasks: Vec<Countdown> = vec![];
    let mut any = wait_for_any(tasks);
    assert!(any.poll(&mut cx).is_none());
    assert!(any.poll(&mut cx).is_none());
}

#[test]
fn any_waits_while_every_task_is_pending() {
    let mut cx = Context::from_waker(Waker::noop());
    let mut any = wait_for_any(vec![countdown(2, 1), countdown(1, 2)]);
    assert!(any.poll(&mut cx).is_none());
    assert_eq!(any.len(), 2);
    assert_eq!(any.count_ready(), 0);
    let snapshot = any.poll(&mut cx).unwrap();
    assert_eq!(shape(&snapshot), vec![None, Some(2)]);
}

#[test]
fn all_keeps_results_in_the_order_of_the_tasks() {
    let mut cx = Context::from_waker(Waker::noop());
    let mut all = wait_for_all(vec![countdown(3, 1), countdown(0, 2), countdown(1, 3)]);
    assert!(all.poll(&mut cx).is_none());
    assert_eq!(all.count_ready(), 1);
    assert!(all.poll(&mut cx).is_none());
    assert_eq!(all.count_ready(), 2);
    assert!(all.poll(&mut cx).is_none());
    let results = all.poll(&mut cx).unwrap();
    assert_eq!(shape(&results), vec![Some(1), Some(2), Some(3)]);
}

#[test]
fn any_reports_every_task_that_was_ready_in_the_same_poll() {
    let mut cx = Context::from_waker(Waker::noop());
    let mut any = wait_for_any(vec![countdown(0, 1), countdown(5, 2), countdown(0, 3)]);
    let snapshot = any.poll(&mut cx).unwrap();
    assert_eq!(shape(&snapshot), vec![Some(1), None, Some(3)]);
}

#[test]
fn a_ready_task_is_not_polled_again() {
    let mut cx = Context::from_waker(Waker::noop());
    let mut any = wait_for_any(vec![std::future::ready(5), std::future::ready(6)]);
    let snapshot = any.poll(&mut cx).unwrap();
    // `std::future::Ready` panics when polled after it has returned.
    let mut all = wait_for_all(snapshot);
    let results = all.poll(&mut cx).unwrap();
    let values: Vec<i32> = results
        .into_iter()
        .map(|state| match state {
            FutureState::Ready(value) => value,
            FutureState::Pending(_) => panic!("a task is pending after a join on all"),
        })
        .collect();
    assert_eq!(values, vec![5, 6]);
}

#[test]
fn cease_hands_back_the_tasks_as_they_stand() {
    let mut cx = Context::from_waker(Waker::noop());
    let mut all = wait_for_all(vec![countdown(0, 1), countdown(9, 2)]);
    assert!(all.poll(&mut cx).is_none());
    let states = all.cease();
    assert_eq!(shape(&states), vec![Some(1), None]);

    let untouched = wait_for_any(vec![countdown(0, 1), countdown(0, 2)]).cease();
    assert_eq!(shape(&untouched), vec![None, None]);
}

#[test]
fn wait_for_takes_the_strategy_it_is_given() {
    let mut cx = Context::from_waker(Waker::noop());
    let mut any = wait_for(vec![countdown(0, 1), countdown(9, 2)], Strategy::Any);
    assert!(any.poll(&mut cx).is_some());
    let mut all = wait_for(vec![countdown(0, 1), countdown(9, 2)], Strategy::All);
    assert!(all.poll(&mut cx).is_none());
}

#[test]
fn complete_turns_a_pending_task_ready_once() {
    let mut join = wait_for_all(vec![countdown(9, 1), countdown(9, 2)]);
    assert!(join.complete(1, 20));
    assert_eq!(join.count_ready(), 1);
    assert!(!join.complete(1, 21));
    assert!(!join.complete(2, 22));
    assert!(join.resolve().is_none());
    assert!(join.complete(0, 10));
    let results = join.resolve().unwrap();
    assert_eq!(shape(&results), vec![Some(10), Some(20)]);
    assert_eq!(join.len(), 0);
}

#[test]
fn resolve_decides_by_the_strategy() {
    let mut any = wait_for_any(vec![countdown(9, 1), countdown(9, 2), countdown(9, 3)]);
    assert!(any.resolve().is_none());
    assert_eq!(any.len(), 3);
    assert!(any.complete(2, 30));
    let snapshot = any.resolve().unwrap();
    assert_eq!(shape(&snapshot), vec![None, None, Some(30)]);

    let mut all = wait_for_all(snapshot);
    assert!(all.resolve().is_none());
    assert_eq!(all.len(), 3);
}

#[test]
fn future_state_tells_whether_it_is_ready() {
    let ready: FutureState<Countdown> = FutureState::Ready(1);
    let pending: FutureState<Countdown> = FutureState::Pending(Box::pin(countdown(1, 1)));
    assert!(ready.is_ready());
    assert!(!pending.is_ready());
}
