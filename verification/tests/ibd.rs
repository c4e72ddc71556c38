use rusty_lightning::ibd::{
    await_ibd_complete_or_stalled, IbdEvent, IbdStage, IbdWait, POLL_INTERVAL_MILLIS,
};

const SECOND: u64 = 1_000_000_000;

/// One round of the wait, up to the look at the clock.
fn round(wait: &mut IbdWait, tip: u64, now: u64) {
    for event in [
        IbdEvent::Shutdown(false),
        IbdEvent::Slept,
        IbdEvent::Downloading(true),
        IbdEvent::Tip(tip),
        IbdEvent::Clock(now),
    ] {
        assert!(wait.awaits_event(event));
        wait.advance(event);
    }
}

#[test]
fn the_wait_polls_twice_a_second() {
    assert_eq!(POLL_INTERVAL_MILLIS, 500);
}

#[test]
fn the_wait_ends_on_shutdown() {
    let mut wait = await_ibd_complete_or_stalled(1, 0);
    assert_eq!(wait.stage, IbdStage::AskShutdown);
    assert!(!wait.awaits_event(IbdEvent::Slept));
    wait.advance(IbdEvent::Shutdown(true));
    assert_eq!(wait.stage, IbdStage::Finished);
}

#[test]
fn the_wait_ends_when_the_node_has_caught_up() {
    let mut wait = await_ibd_complete_or_stalled(1, 0);
    wait.advance(IbdEvent::Shutdown(false));
    assert_eq!(wait.stage, IbdStage::Sleep);
    wait.advance(IbdEvent::Slept);
    assert_eq!(wait.stage, IbdStage::AskDownload);
    wait.advance(IbdEvent::Downloading(false));
    assert_eq!(wait.stage, IbdStage::Finished);
}

#[test]
fn the_wait_ends_when_the_tip_stands_still() {
    let mut wait = await_ibd_complete_or_stalled(1, 5 * SECOND);
    round(&mut wait, 1, 605 * SECOND);
    assert_eq!(wait.stage, IbdStage::AskShutdown);
    round(&mut wait, 1, 605 * SECOND + 1);
    assert_eq!(wait.stage, IbdStage::Finished);
}

#[test]
fn the_wait_goes_on_while_the_tip_moves() {
    let mut wait = await_ibd_complete_or_stalled(1, 0);
    round(&mut wait, 2, 700 * SECOND);
    assert_eq!(wait.stage, IbdStage::AskShutdown);
    assert_eq!(wait.last_tip, 2);
    assert_eq!(wait.last_tip_change, 700 * SECOND);
    round(&mut wait, 2, 1300 * SECOND);
    assert_eq!(wait.stage, IbdStage::AskShutdown);
    assert_eq!(wait.last_tip_change, 700 * SECOND);
    round(&mut wait, 3, 9000 * SECOND);
    assert_eq!(wait.stage, IbdStage::AskShutdown);
    round(&mut wait, 3, 9600 * SECOND + 1);
    assert_eq!(wait.stage, IbdStage::Finished);
}

#[test]
fn a_clock_that_runs_backwards_does_not_end_the_wait() {
    let mut wait = await_ibd_complete_or_stalled(1, 1000 * SECOND);
    round(&mut wait, 1, 0);
    assert_eq!(wait.stage, IbdStage::AskShutdown);
}
