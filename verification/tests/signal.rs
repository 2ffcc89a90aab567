use proximity::signal::Signal;
use std::future::Future;
use std::task::{Context, Poll, Waker};
use tokio::sync::watch;

#[test]
fn stop_sent_after_reload_is_seen_as_one_change() {
    let mut cx = Context::from_waker(Waker::noop());
    let (sender, mut receiver) = watch::channel(Signal::Init);
    assert_eq!(*receiver.borrow(), Signal::Init);

    sender.send(Signal::Reload).unwrap();
    sender.send(Signal::Stop).unwrap();

    let mut changed = Box::pin(receiver.changed());
    assert!(matches!(changed.as_mut().poll(&mut cx), Poll::Ready(Ok(()))));
    drop(changed);
    assert_eq!(*receiver.borrow(), Signal::Stop);

    let mut changed = Box::pin(receiver.changed());
    assert!(changed.as_mut().poll(&mut cx).is_pending());
}

#[test]
fn every_receiver_sees_the_latest_signal() {
    let mut cx = Context::from_waker(Waker::noop());
    let (sender, mut first) = watch::channel(Signal::Init);
    let mut second = first.clone();

    sender.send(Signal::Stop).unwrap();

    let mut changed = Box::pin(first.changed());
    assert!(matches!(changed.as_mut().poll(&mut cx), Poll::Ready(Ok(()))));
    drop(changed);
    let mut changed = Box::pin(second.changed());
    assert!(matches!(changed.as_mut().poll(&mut cx), Poll::Ready(Ok(()))));
    drop(changed);
    assert_eq!(*first.borrow(), Signal::Stop);
    assert_eq!(*second.borrow(), Signal::Stop);
}

#[test]
fn signals_are_told_apart() {
    assert_ne!(Signal::Init, Signal::Stop);
    assert_ne!(Signal::Stop, Signal::Reload);
    assert_ne!(Signal::Reload, Signal::Init);
}
