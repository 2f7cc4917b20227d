use udp_stress::overlay::{Overlay, OverlayAction, OverlayEvent, OverlayPhase};

fn drive(overlay: &mut Overlay, event: OverlayEvent, counter: &mut u64) -> OverlayAction {
    let action = overlay.step(event);
    match action {
        OverlayAction::RunCallback | OverlayAction::RunCallbackAndFinish => *counter += 1,
        OverlayAction::Abort | OverlayAction::Ignore => {}
    }
    action
}

#[test]
fn callback_runs_once_per_period_plus_completion() {
    // the primary task completes after 3 timer periods: the callback has
    // run once per firing plus once more at completion
    let mut overlay = Overlay::new();
    let mut counter: u64 = 0;
    for _ in 0..3 {
        let action = drive(&mut overlay, OverlayEvent::Tick, &mut counter);
        assert_eq!(action, OverlayAction::RunCallback);
        assert_eq!(overlay.phase, OverlayPhase::Running);
    }
    let action = drive(&mut overlay, OverlayEvent::PrimaryDone, &mut counter);
    assert_eq!(action, OverlayAction::RunCallbackAndFinish);
    assert_eq!(overlay.phase, OverlayPhase::Finished);
    assert_eq!(counter, 4);
}

#[test]
fn completion_does_not_wait_for_the_timer() {
    // the primary task may finish before the timer ever fires
    let mut overlay = Overlay::new();
    let mut counter: u64 = 0;
    let action = drive(&mut overlay, OverlayEvent::PrimaryDone, &mut counter);
    assert_eq!(action, OverlayAction::RunCallbackAndFinish);
    assert_eq!(overlay.phase, OverlayPhase::Finished);
    assert_eq!(counter, 1);
}

#[test]
fn no_callback_after_completion() {
    let mut overlay = Overlay::new();
    let mut counter: u64 = 0;
    drive(&mut overlay, OverlayEvent::PrimaryDone, &mut counter);
    let action = drive(&mut overlay, OverlayEvent::Tick, &mut counter);
    assert_eq!(action, OverlayAction::Ignore);
    assert_eq!(counter, 1);
}

#[test]
fn either_failure_aborts_the_pair() {
    let mut overlay = Overlay::new();
    let mut counter: u64 = 0;
    drive(&mut overlay, OverlayEvent::Tick, &mut counter);
    let action = drive(&mut overlay, OverlayEvent::PrimaryFailed, &mut counter);
    assert_eq!(action, OverlayAction::Abort);
    assert_eq!(overlay.phase, OverlayPhase::Failed);
    // no completion callback on failure
    assert_eq!(counter, 1);

    let mut overlay = Overlay::new();
    let action = overlay.step(OverlayEvent::TimerFailed);
    assert_eq!(action, OverlayAction::Abort);
    assert_eq!(overlay.phase, OverlayPhase::Failed);
    // a failed pair ignores everything that follows
    assert_eq!(overlay.step(OverlayEvent::PrimaryDone), OverlayAction::Ignore);
}
