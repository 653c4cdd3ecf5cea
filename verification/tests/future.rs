use std::cell::Cell;

use squeak::future::{merge_futures, DynFuture, PollState};

#[test]
fn dyn_future_reports_the_closure_answer() {
    let ready = DynFuture::new(|| Some(3));
    assert_eq!(ready.poll(), PollState::Ready(3));
    let pending = DynFuture::new(|| None::<u8>);
    assert_eq!(pending.poll(), PollState::Pending);
}

#[test]
fn merge_polls_first_then_second_then_is_ready() {
    let fa = DynFuture::new(|| Some('a'));
    let fb = DynFuture::new(|| Some(2u8));
    let mut m = merge_futures(fa, fb);
    assert_eq!(m.poll(), PollState::Pending);
    assert_eq!(m.poll(), PollState::Pending);
    assert_eq!(m.poll(), PollState::Ready(('a', 2)));
    // it starts over afterwards
    assert_eq!(m.poll(), PollState::Pending);
}

#[test]
fn merge_waits_for_a_pending_first_future() {
    let ticks = Cell::new(0u32);
    let fa = DynFuture::new(|| {
        ticks.set(ticks.get() + 1);
        if ticks.get() >= 3 { Some(1u8) } else { None }
    });
    let fb = DynFuture::new(|| Some(9u8));
    let mut m = merge_futures(fa, fb);
    assert_eq!(m.poll(), PollState::Pending);
    assert_eq!(m.poll(), PollState::Pending);
    assert_eq!(m.poll(), PollState::Pending);
    assert_eq!(ticks.get(), 3);
    assert_eq!(m.poll(), PollState::Pending);
    assert_eq!(m.poll(), PollState::Ready((1, 9)));
}
