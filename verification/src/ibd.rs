//! Waiting for the full node to catch up with the chain.
use vstd::prelude::*;

verus! {

/// How long to sleep between two looks, in milliseconds.
pub const POLL_INTERVAL_MILLIS: u64 = 500;

/// How long the tip of the chain may stand still before the full node counts as stuck, in nanoseconds.
pub const STALL_LIMIT_NANOS: u64 = 600_000_000_000;

/// What is to be done next while waiting.
#[derive(Clone, Copy, Debug, PartialEq, Eq, Structural)]
pub enum IbdStage {
    /// Ask whether the full node is to shut down.
    AskShutdown,
    /// Sleep.
    Sleep,
    /// Ask whether the full node is still catching up.
    AskDownload,
    /// Look up the tip of the chain.
    ReadTip,
    /// Look at the clock, because the tip has changed.
    NoteChange,
    /// Look at the clock, because the tip has not changed.
    CheckStall,
    /// The wait is over.
    Finished,
}

/// How what was to be done came out.
#[derive(Clone, Copy, Debug, PartialEq, Eq, Structural)]
pub enum IbdEvent {
    /// Whether the full node is to shut down.
    Shutdown(bool),
    /// The sleep is over.
    Slept,
    /// Whether the full node is still catching up.
    Downloading(bool),
    /// A number that stands for the tip of the chain.
    Tip(u64),
    /// What the clock shows, in nanoseconds.
    Clock(u64),
}

/// A wait for the full node to catch up, under way.
#[derive(Clone, Copy, Debug, PartialEq, Eq, Structural)]
pub struct IbdWait {
    /// The tip of the chain when it was last looked up.
    pub last_tip: u64,
    /// What the clock showed when the tip was last seen to change.
    pub last_tip_change: u64,
    /// What is to be done next.
    pub stage: IbdStage,
}

/// Whether `event` tells how `stage` came out.
pub open spec fn ibd_awaits(stage: IbdStage, event: IbdEvent) -> bool {
    match event {
        IbdEvent::Shutdown(_) => stage == IbdStage::AskShutdown,
        IbdEvent::Slept => stage == IbdStage::Sleep,
        IbdEvent::Downloading(_) => stage == IbdStage::AskDownload,
        IbdEvent::Tip(_) => stage == IbdStage::ReadTip,
        IbdEvent::Clock(_) => stage == IbdStage::NoteChange || stage == IbdStage::CheckStall,
    }
}

/// The wait after an event.
pub open spec fn ibd_step(wait: IbdWait, event: IbdEvent) -> IbdWait {
    match event {
        IbdEvent::Shutdown(requested) => IbdWait {
            stage: if requested { IbdStage::Finished } else { IbdStage::Sleep },
            ..wait
        },
        IbdEvent::Slept => IbdWait { stage: IbdStage::AskDownload, ..wait },
        IbdEvent::Downloading(downloading) => IbdWait {
            stage: if downloading { IbdStage::ReadTip } else { IbdStage::Finished },
            ..wait
        },
        IbdEvent::Tip(tip) => IbdWait {
            last_tip: tip,
            stage: if tip != wait.last_tip { IbdStage::NoteChange } else { IbdStage::CheckStall },
            ..wait
        },
        IbdEvent::Clock(now) => if wait.stage == IbdStage::NoteChange {
            IbdWait { last_tip_change: now, stage: IbdStage::AskShutdown, ..wait }
        } else if now - wait.last_tip_change > STALL_LIMIT_NANOS {
            IbdWait { stage: IbdStage::Finished, ..wait }
        } else {
            IbdWait { stage: IbdStage::AskShutdown, ..wait }
        },
    }
}

/// Begins to wait until the full node has caught up, is stuck, or is to shut down.
///
/// `tip` stands for the present tip of the chain, and `now` is what the clock shows.
pub fn await_ibd_complete_or_stalled(tip: u64, now: u64) -> (wait: IbdWait)
    ensures
        wait == ibd_begin(tip, now),
{
    IbdWait { last_tip: tip, last_tip_change: now, stage: IbdStage::AskShutdown }
}

impl IbdWait {
    /// Tells whether `event` tells how the present stage came out.
    pub fn awaits_event(&self, event: IbdEvent) -> (awaited: bool)
        ensures
            awaited == ibd_awaits(self.stage, event),
    {
        match event {
            IbdEvent::Shutdown(_) => self.stage == IbdStage::AskShutdown,
            IbdEvent::Slept => self.stage == IbdStage::Sleep,
            IbdEvent::Downloading(_) => self.stage == IbdStage::AskDownload,
            IbdEvent::Tip(_) => self.stage == IbdStage::ReadTip,
            IbdEvent::Clock(_) => self.stage == IbdStage::NoteChange || self.stage
                == IbdStage::CheckStall,
        }
    }

    /// Takes in how the present stage came out.
    pub fn advance(&mut self, event: IbdEvent)
        requires
            ibd_awaits(old(self).stage, event),
        ensures
            *final(self) == ibd_step(*old(self), event),
    {
        match event {
            IbdEvent::Shutdown(requested) => {
                self.stage = if requested { IbdStage::Finished } else { IbdStage::Sleep };
            },
            IbdEvent::Slept => {
                self.stage = IbdStage::AskDownload;
            },
            IbdEvent::Downloading(downloading) => {
                self.stage = if downloading { IbdStage::ReadTip } else { IbdStage::Finished };
            },
            IbdEvent::Tip(tip) => {
                if tip != self.last_tip {
                    self.last_tip = tip;
                    self.stage = IbdStage::NoteChange;
                } else {
                    self.stage = IbdStage::CheckStall;
                }
            },
            IbdEvent::Clock(now) => {
                if self.stage == IbdStage::NoteChange {
                    self.last_tip_change = now;
                    self.stage = IbdStage::AskShutdown;
                } else if now >= self.last_tip_change && now - self.last_tip_change
                    > STALL_LIMIT_NANOS {
                    self.stage = IbdStage::Finished;
                } else {
                    self.stage = IbdStage::AskShutdown;
                }
            },
        }
    }
}

/// A wait before anything has been done.
pub open spec fn ibd_begin(tip: u64, now: u64) -> IbdWait {
    IbdWait { last_tip: tip, last_tip_change: now, stage: IbdStage::AskShutdown }
}

/// The wait after these events, or `None` if one of them does not tell how the stage before it came
/// out.
pub open spec fn ibd_run(tip: u64, now: u64, events: Seq<IbdEvent>) -> Option<IbdWait>
    decreases events.len(),
{
    if events.len() == 0 {
        Some(ibd_begin(tip, now))
    } else {
        match ibd_run(tip, now, events.drop_last()) {
            Some(wait) => if ibd_awaits(wait.stage, events.last()) {
                Some(ibd_step(wait, events.last()))
            } else {
                None
            },
            None => None,
        }
    }
}

/// The tip that was last looked up.
pub open spec fn tip_seen(tip: u64, events: Seq<IbdEvent>) -> u64
    decreases events.len(),
{
    if events.len() == 0 {
        tip
    } else {
        match events.last() {
            IbdEvent::Tip(seen) => seen,
            _ => tip_seen(tip, events.drop_last()),
        }
    }
}

/// What the clock showed when the tip was last seen to differ from the one before.
pub open spec fn change_seen(tip: u64, now: u64, events: Seq<IbdEvent>) -> u64
    decreases events.len(),
{
    if events.len() == 0 {
        now
    } else {
        let before = events.drop_last();
        match events.last() {
            IbdEvent::Clock(shown) => if before.len() > 0 && tip_seen(tip, before) != tip_seen(
                tip,
                before.drop_last(),
            ) {
                shown
            } else {
                change_seen(tip, now, before)
            },
            _ => change_seen(tip, now, before),
        }
    }
}

/// The wait is over for one of three reasons, and for no other: the full node is to shut down; it has
/// caught up; or its tip has stood still for longer than the limit.
pub proof fn law_wait_ends_for_a_reason(tip: u64, now: u64, events: Seq<IbdEvent>)
    requires
        ibd_run(tip, now, events) is Some,
    ensures
        ibd_run(tip, now, events)->0.stage == IbdStage::Finished <==> events.len() > 0 && {
            ||| events.last() == IbdEvent::Shutdown(true)
            ||| events.last() == IbdEvent::Downloading(false)
            ||| events.last() matches IbdEvent::Clock(shown) && {
                let before = events.drop_last();
                &&& tip_seen(tip, before) == tip_seen(tip, before.drop_last())
                &&& shown - change_seen(tip, now, before) > STALL_LIMIT_NANOS
            }
        },
{
    lemma_ibd(tip, now, events);
    if events.len() > 0 {
        lemma_ibd(tip, now, events.drop_last());
    }
}

/// The full node is asked whether it is to shut down before every sleep, and never slept on when it is.
pub proof fn law_no_sleep_after_shutdown(tip: u64, now: u64, events: Seq<IbdEvent>)
    requires
        ibd_run(tip, now, events) is Some,
        ibd_run(tip, now, events)->0.stage == IbdStage::Sleep,
    ensures
        events.len() > 0 && events.last() == IbdEvent::Shutdown(false),
{
    lemma_ibd(tip, now, events);
}

/// What is known of the events behind each stage.
proof fn lemma_ibd(tip: u64, now: u64, events: Seq<IbdEvent>)
    requires
        ibd_run(tip, now, events) is Some,
    ensures
        ({
            let wait = ibd_run(tip, now, events)->0;
            &&& wait.last_tip == tip_seen(tip, events)
            &&& wait.last_tip_change == change_seen(tip, now, events)
            &&& wait.stage == IbdStage::Sleep ==> events.len() > 0 && events.last()
                == IbdEvent::Shutdown(false)
            &&& wait.stage == IbdStage::NoteChange ==> events.len() > 0 && events.last() is Tip
                && tip_seen(tip, events) != tip_seen(tip, events.drop_last())
            &&& wait.stage == IbdStage::CheckStall ==> events.len() > 0 && events.last() is Tip
                && tip_seen(tip, events) == tip_seen(tip, events.drop_last())
        }),
    decreases events.len(),
{
    if events.len() > 0 {
        lemma_ibd(tip, now, events.drop_last());
    }
}

/// What is done next follows from what came last. The full node is asked whether it is still catching
/// up directly after every sleep, and only then; it is slept on directly after it has said that it is
/// not to shut down, and only then; and the wait begins again with that question after every look at
/// the clock that does not end it.
pub proof fn law_stages_follow_from_the_last_event(tip: u64, now: u64, events: Seq<IbdEvent>)
    requires
        ibd_run(tip, now, events) is Some,
    ensures
        ({
            let stage = ibd_run(tip, now, events)->0.stage;
            &&& stage == IbdStage::Sleep <==> events.len() > 0 && events.last()
                == IbdEvent::Shutdown(false)
            &&& stage == IbdStage::AskDownload <==> events.len() > 0 && events.last()
                == IbdEvent::Slept
            &&& stage == IbdStage::ReadTip <==> events.len() > 0 && events.last()
                == IbdEvent::Downloading(true)
            &&& stage == IbdStage::NoteChange <==> events.len() > 0 && events.last() is Tip
                && tip_seen(tip, events) != tip_seen(tip, events.drop_last())
            &&& stage == IbdStage::CheckStall <==> events.len() > 0 && events.last() is Tip
                && tip_seen(tip, events) == tip_seen(tip, events.drop_last())
            &&& stage == IbdStage::AskShutdown <==> events.len() == 0 || (events.last() is Clock
                && stage != IbdStage::Finished)
        }),
{
    lemma_ibd(tip, now, events);
    if events.len() > 0 {
        lemma_ibd(tip, now, events.drop_last());
    }
}

/// Every question whether the full node is still catching up comes after a sleep that comes after an
/// answer that it is not to shut down.
pub proof fn law_every_look_comes_after_a_sleep(tip: u64, now: u64, events: Seq<IbdEvent>)
    requires
        ibd_run(tip, now, events) is Some,
        ibd_run(tip, now, events)->0.stage == IbdStage::AskDownload,
    ensures
        events.len() >= 2,
        events[events.len() - 1] == IbdEvent::Slept,
        events[events.len() - 2] == IbdEvent::Shutdown(false),
{
    law_stages_follow_from_the_last_event(tip, now, events);
    law_stages_follow_from_the_last_event(tip, now, events.drop_last());
    let before = events.drop_last();
    assert(ibd_awaits(ibd_run(tip, now, before)->0.stage, IbdEvent::Slept));
    assert(before.last() == events[events.len() - 2]);
}

/// The wait knows the tip that was last looked up, and what the clock showed when the tip was last
/// seen to change.
pub proof fn law_wait_remembers_the_tip(tip: u64, now: u64, events: Seq<IbdEvent>)
    requires
        ibd_run(tip, now, events) is Some,
    ensures
        ibd_run(tip, now, events)->0.last_tip == tip_seen(tip, events),
        ibd_run(tip, now, events)->0.last_tip_change == change_seen(tip, now, events),
{
    lemma_ibd(tip, now, events);
}

/// A round of a wait that is not over: asked whether it is to shut down, slept on, asked whether it is
/// still catching up, its tip looked up, and the clock looked at. A tip that has changed is noted
/// together with the time; one that has not is held against the limit; and unless that ends the wait,
/// another round begins.
pub proof fn law_a_round_of_the_wait(
    tip: u64,
    now: u64,
    events: Seq<IbdEvent>,
    seen: u64,
    shown: u64,
)
    requires
        ibd_run(tip, now, events) is Some,
        ibd_run(tip, now, events)->0.stage == IbdStage::AskShutdown,
    ensures
        ({
            let before = ibd_run(tip, now, events)->0;
            let round = events.push(IbdEvent::Shutdown(false)).push(IbdEvent::Slept).push(
                IbdEvent::Downloading(true),
            ).push(IbdEvent::Tip(seen)).push(IbdEvent::Clock(shown));
            let changed = seen != before.last_tip;
            let stuck = !changed && shown - before.last_tip_change > STALL_LIMIT_NANOS;
            &&& ibd_run(tip, now, round) matches Some(after)
            &&& after.last_tip == seen
            &&& after.last_tip_change == if changed { shown } else { before.last_tip_change }
            &&& after.stage == if stuck { IbdStage::Finished } else { IbdStage::AskShutdown }
        }),
{
    let asked = events.push(IbdEvent::Shutdown(false));
    let slept = asked.push(IbdEvent::Slept);
    let looked = slept.push(IbdEvent::Downloading(true));
    let read = looked.push(IbdEvent::Tip(seen));
    let round = read.push(IbdEvent::Clock(shown));
    assert(asked.drop_last() =~= events);
    assert(slept.drop_last() =~= asked);
    assert(looked.drop_last() =~= slept);
    assert(read.drop_last() =~= looked);
    assert(round.drop_last() =~= read);
    assert(ibd_run(tip, now, asked) is Some);
    assert(ibd_run(tip, now, slept) is Some);
    assert(ibd_run(tip, now, looked) is Some);
    assert(ibd_run(tip, now, read) is Some);
}

/// A round is broken off when the full node is to shut down, before it is slept on, and when it has
/// caught up, before its tip is looked up; and then nothing more is awaited.
pub proof fn law_a_wait_is_broken_off(
    tip: u64,
    now: u64,
    events: Seq<IbdEvent>,
    later: IbdEvent,
)
    requires
        ibd_run(tip, now, events) is Some,
        ibd_run(tip, now, events)->0.stage == IbdStage::AskShutdown,
    ensures
        ({
            let shut = events.push(IbdEvent::Shutdown(true));
            let done = events.push(IbdEvent::Shutdown(false)).push(IbdEvent::Slept).push(
                IbdEvent::Downloading(false),
            );
            &&& ibd_run(tip, now, shut) matches Some(after) && after.stage == IbdStage::Finished
            &&& ibd_run(tip, now, done) matches Some(after) && after.stage == IbdStage::Finished
            &&& ibd_run(tip, now, shut.push(later)) is None
            &&& ibd_run(tip, now, done.push(later)) is None
        }),
{
    let shut = events.push(IbdEvent::Shutdown(true));
    let asked = events.push(IbdEvent::Shutdown(false));
    let slept = asked.push(IbdEvent::Slept);
    let done = slept.push(IbdEvent::Downloading(false));
    assert(shut.drop_last() =~= events);
    assert(asked.drop_last() =~= events);
    assert(slept.drop_last() =~= asked);
    assert(done.drop_last() =~= slept);
    assert(shut.push(later).drop_last() =~= shut);
    assert(done.push(later).drop_last() =~= done);
    assert(ibd_run(tip, now, asked) is Some);
    assert(ibd_run(tip, now, slept) is Some);
}

/// Each stage of the wait awaits word of what was to be done at it, whatever that word is, and of nothing
/// else; a wait that is over awaits nothing.
pub proof fn law_each_stage_of_the_wait_awaits_its_own_event(stage: IbdStage, event: IbdEvent)
    ensures
        ibd_awaits(stage, event) <==> match stage {
            IbdStage::AskShutdown => event is Shutdown,
            IbdStage::Sleep => event is Slept,
            IbdStage::AskDownload => event is Downloading,
            IbdStage::ReadTip => event is Tip,
            IbdStage::NoteChange => event is Clock,
            IbdStage::CheckStall => event is Clock,
            IbdStage::Finished => false,
        },
{
}

} // verus!
