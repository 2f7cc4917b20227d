//! The periodic overlay: a primary task runs to completion while a timer
//! fires a callback once immediately and then once per period. The pair
//! finishes as soon as the primary task does — never waiting for the timer
//! — and fires the callback exactly once more at that completion; a failure
//! on either side ends the pair at once. The decisions live here as a state
//! machine; the driver performs the actions it hands back.

use vstd::prelude::*;

verus! {

/// What the driver observed: a timer tick, or the primary task ending.
#[derive(Clone, Copy, PartialEq, Eq, Structural, Debug)]
pub enum OverlayEvent {
    /// The timer fired; the first tick comes immediately on start.
    Tick,
    /// The primary task completed.
    PrimaryDone,
    /// The primary task failed.
    PrimaryFailed,
    /// The timer failed.
    TimerFailed,
}

/// What the driver must do in answer to an event.
#[derive(Clone, Copy, PartialEq, Eq, Structural, Debug)]
pub enum OverlayAction {
    /// Invoke the callback and keep both sides running.
    RunCallback,
    /// Invoke the callback once more, cancel the timer, and finish.
    RunCallbackAndFinish,
    /// Cancel both sides and fail the pair.
    Abort,
    /// The pair is already over: do nothing.
    Ignore,
}

/// Where the pair stands.
#[derive(Clone, Copy, PartialEq, Eq, Structural, Debug)]
pub enum OverlayPhase {
    /// Both sides are live.
    Running,
    /// The primary task completed and the closing callback was ordered.
    Finished,
    /// One side failed; the pair failed with it.
    Failed,
}

/// The overlay's state: its phase and a tally of timer firings and of
/// callback invocations ordered so far.
pub struct Overlay {
    /// Where the pair stands.
    pub phase: OverlayPhase,
    /// Timer firings answered with a callback.
    pub ticks: u64,
    /// Callback invocations ordered in all.
    pub callbacks: u64,
}

/// The state a fresh overlay starts in.
pub open spec fn initial_overlay() -> Overlay {
    Overlay { phase: OverlayPhase::Running, ticks: 0, callbacks: 0 }
}

/// The overlay's one transition: on a tick the callback runs and both
/// sides go on; on primary completion the callback runs once more and the
/// pair finishes; on either failure the pair fails; and an overlay that is
/// over ignores every further event.
pub open spec fn overlay_step(s: Overlay, e: OverlayEvent) -> (Overlay, OverlayAction) {
    if s.phase != OverlayPhase::Running {
        (s, OverlayAction::Ignore)
    } else {
        match e {
            OverlayEvent::Tick => (
                Overlay { ticks: (s.ticks + 1) as u64, callbacks: (s.callbacks + 1) as u64, ..s },
                OverlayAction::RunCallback,
            ),
            OverlayEvent::PrimaryDone => (
                Overlay {
                    phase: OverlayPhase::Finished,
                    callbacks: (s.callbacks + 1) as u64,
                    ..s
                },
                OverlayAction::RunCallbackAndFinish,
            ),
            OverlayEvent::PrimaryFailed => (
                Overlay { phase: OverlayPhase::Failed, ..s },
                OverlayAction::Abort,
            ),
            OverlayEvent::TimerFailed => (
                Overlay { phase: OverlayPhase::Failed, ..s },
                OverlayAction::Abort,
            ),
        }
    }
}

/// The tally the overlay maintains: the callback has run once per tick,
/// plus once more exactly when the pair finished by primary completion.
pub open spec fn overlay_inv(s: Overlay) -> bool {
    s.callbacks == s.ticks + if s.phase is Finished { 1int } else { 0int }
}

impl Overlay {
    /// A fresh overlay: running, nothing fired yet.
    pub fn new() -> (r: Overlay)
        ensures
            r == initial_overlay(),
            overlay_inv(r),
    {
        Overlay { phase: OverlayPhase::Running, ticks: 0, callbacks: 0 }
    }

    /// Feeds one observed event in and hands back the action owed for it.
    pub fn step(&mut self, e: OverlayEvent) -> (a: OverlayAction)
        requires
            old(self).ticks < u64::MAX,
            old(self).callbacks < u64::MAX,
        ensures
            *final(self) == overlay_step(*old(self), e).0,
            a == overlay_step(*old(self), e).1,
            overlay_inv(*old(self)) ==> overlay_inv(*final(self)),
    {
        if !matches!(self.phase, OverlayPhase::Running) {
            return OverlayAction::Ignore;
        }
        match e {
            OverlayEvent::Tick => {
                self.ticks = self.ticks + 1;
                self.callbacks = self.callbacks + 1;
                OverlayAction::RunCallback
            },
            OverlayEvent::PrimaryDone => {
                self.phase = OverlayPhase::Finished;
                self.callbacks = self.callbacks + 1;
                OverlayAction::RunCallbackAndFinish
            },
            OverlayEvent::PrimaryFailed => {
                self.phase = OverlayPhase::Failed;
                OverlayAction::Abort
            },
            OverlayEvent::TimerFailed => {
                self.phase = OverlayPhase::Failed;
                OverlayAction::Abort
            },
        }
    }
}

/// The state after a whole run of events, first to last.
pub open spec fn overlay_run(s: Overlay, events: Seq<OverlayEvent>) -> Overlay
    decreases events.len(),
{
    if events.len() == 0 {
        s
    } else {
        overlay_run(overlay_step(s, events[0]).0, events.drop_first())
    }
}

/// A run of ticks alone leaves the overlay running, with one callback
/// ordered per tick.
proof fn lemma_ticks_only(s: Overlay, events: Seq<OverlayEvent>)
    requires
        s.phase is Running,
        s.ticks + events.len() <= u64::MAX,
        s.callbacks + events.len() <= u64::MAX,
        forall|j: int| 0 <= j < events.len() ==> events[j] == OverlayEvent::Tick,
    ensures
        overlay_run(s, events).phase is Running,
        overlay_run(s, events).ticks == s.ticks + events.len(),
        overlay_run(s, events).callbacks == s.callbacks + events.len(),
    decreases events.len(),
{
    if events.len() > 0 {
        lemma_ticks_only(overlay_step(s, events[0]).0, events.drop_first());
    }
}

/// A primary task that completes after some number of timer firings sees
/// the callback run exactly that number of times plus one — the closing
/// invocation — and the pair finish at that very event, not waiting on the
/// timer.
pub proof fn lemma_periodic_count(ticks: Seq<OverlayEvent>)
    requires
        ticks.len() < u64::MAX,
        forall|j: int| 0 <= j < ticks.len() ==> ticks[j] == OverlayEvent::Tick,
    ensures
        ({
            let before = overlay_run(initial_overlay(), ticks);
            let (after, action) = overlay_step(before, OverlayEvent::PrimaryDone);
            &&& before.phase is Running
            &&& after.phase is Finished
            &&& after.callbacks == ticks.len() + 1
            &&& action == OverlayAction::RunCallbackAndFinish
        }),
{
    lemma_ticks_only(initial_overlay(), ticks);
}

/// Every step keeps the tally: however the pair is driven, the callbacks
/// ordered so far equal the ticks answered, plus one once the primary task
/// completed the pair.
pub proof fn lemma_overlay_inv_preserved(s: Overlay, e: OverlayEvent)
    requires
        overlay_inv(s),
        s.ticks < u64::MAX,
        s.callbacks < u64::MAX,
    ensures
        overlay_inv(overlay_step(s, e).0),
{
}

} // verus!
