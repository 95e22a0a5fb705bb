use shadowin::animator::click_edge;
use shadowin::animator::progress_alpha;
use shadowin::animator::tick;
use shadowin::animator::TransitionRecord;
use shadowin::animator::VisualState;
use shadowin::animator::WidgetVisualState;

#[test]
fn hover_starts_transition_from_idle() {
    let s = WidgetVisualState::Stable(VisualState::Idle);
    let r = tick(s, 1000, true, false);
    assert_eq!(
        r,
        WidgetVisualState::Animating(TransitionRecord {
            from: VisualState::Idle,
            to: VisualState::Hovered,
            start_ms: 1000,
        })
    );
}

#[test]
fn transition_collapses_after_exact_duration() {
    let s = WidgetVisualState::Animating(TransitionRecord {
        from: VisualState::Idle,
        to: VisualState::Hovered,
        start_ms: 1000,
    });
    let r = tick(s, 1200, true, false);
    assert_eq!(r, WidgetVisualState::Stable(VisualState::Hovered));
}

#[test]
fn transition_collapses_even_when_duration_overshot() {
    let s = WidgetVisualState::Animating(TransitionRecord {
        from: VisualState::Idle,
        to: VisualState::Hovered,
        start_ms: 1000,
    });
    let r = tick(s, 5000, true, false);
    assert_eq!(r, WidgetVisualState::Stable(VisualState::Hovered));
}

#[test]
fn transition_keeps_running_before_duration() {
    let s = WidgetVisualState::Animating(TransitionRecord {
        from: VisualState::Idle,
        to: VisualState::Hovered,
        start_ms: 1000,
    });
    let r = tick(s, 1199, true, false);
    assert_eq!(r, s);
}

#[test]
fn new_target_restarts_interpolation_from_current_visual() {
    let s = WidgetVisualState::Animating(TransitionRecord {
        from: VisualState::Idle,
        to: VisualState::Hovered,
        start_ms: 1000,
    });
    // Pressing mid-flight retargets: the in-flight destination counts as
    // the current visual, and the new transition starts now.
    let r = tick(s, 1100, true, true);
    assert_eq!(
        r,
        WidgetVisualState::Animating(TransitionRecord {
            from: VisualState::Hovered,
            to: VisualState::Pressed,
            start_ms: 1100,
        })
    );
}

#[test]
fn mid_flight_same_target_does_not_retrigger() {
    let s = WidgetVisualState::Animating(TransitionRecord {
        from: VisualState::Idle,
        to: VisualState::Hovered,
        start_ms: 1000,
    });
    let r = tick(s, 1100, true, false);
    assert_eq!(r, s);
}

#[test]
fn pointer_gone_targets_idle() {
    let s = WidgetVisualState::Stable(VisualState::Hovered);
    let r = tick(s, 42, false, true);
    assert_eq!(
        r,
        WidgetVisualState::Animating(TransitionRecord {
            from: VisualState::Hovered,
            to: VisualState::Idle,
            start_ms: 42,
        })
    );
}

#[test]
fn click_edge_fires_only_on_release() {
    // press tick, then release tick
    assert!(!click_edge(false, true));
    assert!(click_edge(true, false));
    // held press never fires
    assert!(!click_edge(true, true));
    assert!(!click_edge(false, false));
}

#[test]
fn progress_alpha_covers_the_transition() {
    assert_eq!(progress_alpha(1000, 1000), 0);
    assert_eq!(progress_alpha(1100, 1000), 127);
    assert_eq!(progress_alpha(1200, 1000), 255);
    assert_eq!(progress_alpha(9999, 1000), 255);
}
