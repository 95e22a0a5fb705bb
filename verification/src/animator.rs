//! Per-widget visual state machine: settled states, time-bounded
//! cross-fade transitions between them, and click edge detection.

use vstd::prelude::*;

verus! {

/// Length of a visual cross-fade, in milliseconds.
pub const TRANSITION_DURATION_MS: u64 = 200;

/// The fixed interaction states a widget can visually represent.
#[derive(PartialEq, Eq, Structural, Clone, Copy, Debug, Hash)]
pub enum VisualState {
    Idle,
    Hovered,
    Pressed,
}

/// An in-flight cross-fade from one visual state to another.
#[derive(PartialEq, Eq, Structural, Clone, Copy, Debug)]
pub struct TransitionRecord {
    pub from: VisualState,
    pub to: VisualState,
    /// Tick timestamp at which the transition started, in milliseconds.
    pub start_ms: u64,
}

/// A widget's visual state: either settled, or mid-transition.
#[derive(PartialEq, Eq, Structural, Clone, Copy, Debug)]
pub enum WidgetVisualState {
    Stable(VisualState),
    Animating(TransitionRecord),
}

impl WidgetVisualState {
    /// Every in-flight transition started no later than the given tick.
    pub open spec fn wf_at(self, now_ms: u64) -> bool {
        match self {
            WidgetVisualState::Stable(_) => true,
            WidgetVisualState::Animating(t) => t.start_ms <= now_ms,
        }
    }

    /// The visual a widget counts as showing. A transition in flight
    /// already counts as having arrived at its destination, which keeps a
    /// tick from retriggering a transition toward the same target.
    pub open spec fn current_visual(self) -> VisualState {
        match self {
            WidgetVisualState::Stable(s) => s,
            WidgetVisualState::Animating(t) => t.to,
        }
    }
}

/// The visual state the pointer facts call for.
pub open spec fn target_state(over: bool, pressed: bool) -> VisualState {
    if over {
        if pressed {
            VisualState::Pressed
        } else {
            VisualState::Hovered
        }
    } else {
        VisualState::Idle
    }
}

/// A transition whose duration has fully elapsed collapses into its
/// destination; anything else is left as it is.
pub open spec fn collapse(s: WidgetVisualState, now_ms: u64) -> WidgetVisualState {
    match s {
        WidgetVisualState::Animating(t) => {
            if now_ms - t.start_ms >= TRANSITION_DURATION_MS {
                WidgetVisualState::Stable(t.to)
            } else {
                s
            }
        },
        WidgetVisualState::Stable(_) => s,
    }
}

/// One tick of the state machine: if the pointer facts call for a visual
/// other than the one currently shown, a fresh transition toward it starts
/// now, replacing anything in flight; otherwise an expired transition
/// collapses into its destination.
pub open spec fn spec_tick(s: WidgetVisualState, now_ms: u64, over: bool, pressed: bool)
    -> WidgetVisualState {
    if s.current_visual() != target_state(over, pressed) {
        WidgetVisualState::Animating(
            TransitionRecord {
                from: s.current_visual(),
                to: target_state(over, pressed),
                start_ms: now_ms,
            },
        )
    } else {
        collapse(s, now_ms)
    }
}

/// Advances a widget's visual state by one tick from the current pointer
/// facts.
pub fn tick(s: WidgetVisualState, now_ms: u64, over: bool, pressed: bool)
    -> (r: WidgetVisualState)
    requires
        s.wf_at(now_ms),
    ensures
        r == spec_tick(s, now_ms, over, pressed),
        r.wf_at(now_ms),
{
    let target = if over {
        if pressed {
            VisualState::Pressed
        } else {
            VisualState::Hovered
        }
    } else {
        VisualState::Idle
    };
    let current = match s {
        WidgetVisualState::Stable(v) => v,
        WidgetVisualState::Animating(t) => t.to,
    };
    if current != target {
        WidgetVisualState::Animating(
            TransitionRecord { from: current, to: target, start_ms: now_ms },
        )
    } else {
        match s {
            WidgetVisualState::Animating(t) => {
                if now_ms - t.start_ms >= TRANSITION_DURATION_MS {
                    WidgetVisualState::Stable(t.to)
                } else {
                    s
                }
            },
            WidgetVisualState::Stable(_) => s,
        }
    }
}

/// An edge-triggered release: the pointer was pressed on the previous tick
/// and is released on this one.
pub open spec fn spec_click_edge(prev_pressed: bool, pressed: bool) -> bool {
    prev_pressed && !pressed
}

/// Computes the edge-triggered release signal from two consecutive ticks'
/// pressed facts.
pub fn click_edge(prev_pressed: bool, pressed: bool) -> (r: bool)
    ensures
        r == spec_click_edge(prev_pressed, pressed),
{
    prev_pressed && !pressed
}

/// A widget registers a click exactly when the pointer is over it and the
/// tick carries an edge-triggered release.
pub open spec fn spec_click(over: bool, clicked: bool) -> bool {
    over && clicked
}

/// Law: a widget's well-formedness at a tick is kept by every later tick
/// of a monotonic clock.
pub proof fn lemma_wf_at_monotonic(s: WidgetVisualState, t1: u64, t2: u64)
    requires
        s.wf_at(t1),
        t1 <= t2,
    ensures
        s.wf_at(t2),
{
}

/// Law: from a settled Idle visual, a tick with the pointer over the
/// widget and not pressed starts a cross-fade from Idle to Hovered,
/// beginning at that tick.
pub proof fn lemma_hover_starts_transition(now_ms: u64)
    ensures
        spec_tick(WidgetVisualState::Stable(VisualState::Idle), now_ms, true, false)
            == WidgetVisualState::Animating(
            TransitionRecord {
                from: VisualState::Idle,
                to: VisualState::Hovered,
                start_ms: now_ms,
            },
        ),
{
}

/// Law: once the transition duration has fully elapsed — no matter by how
/// much — a tick whose target matches the destination collapses the
/// transition into the settled destination state, never skipping the
/// collapse.
pub proof fn lemma_elapsed_transition_collapses(
    t: TransitionRecord,
    now_ms: u64,
    over: bool,
    pressed: bool,
)
    requires
        t.start_ms + TRANSITION_DURATION_MS <= now_ms,
        target_state(over, pressed) == t.to,
    ensures
        spec_tick(WidgetVisualState::Animating(t), now_ms, over, pressed)
            == WidgetVisualState::Stable(t.to),
{
}

/// Law: a press followed by a release with the pointer over the widget
/// clicks exactly once, on the release tick; a release with the pointer
/// gone does not click, and neither does the press itself.
pub proof fn lemma_click_only_on_release_over()
    ensures
        !spec_click(true, spec_click_edge(false, true)),
        spec_click(true, spec_click_edge(true, false)),
        !spec_click(false, spec_click_edge(true, false)),
{
}

/// How far a transition begun at `start_ms` has progressed by `now_ms`,
/// as an alpha multiplier for its destination layer: 0 at the start, 255
/// from the full duration on.
pub open spec fn spec_progress_alpha(now_ms: u64, start_ms: u64) -> u8 {
    let elapsed = now_ms - start_ms;
    if elapsed >= TRANSITION_DURATION_MS {
        255
    } else {
        (elapsed * 255 / (TRANSITION_DURATION_MS as int)) as u8
    }
}

/// The alpha multiplier of a transition's destination layer at the given
/// tick; the departing layer gets its complement.
pub fn progress_alpha(now_ms: u64, start_ms: u64) -> (r: u8)
    requires
        start_ms <= now_ms,
    ensures
        r == spec_progress_alpha(now_ms, start_ms),
{
    let elapsed = now_ms - start_ms;
    if elapsed >= TRANSITION_DURATION_MS {
        255
    } else {
        ((elapsed * 255) / TRANSITION_DURATION_MS) as u8
    }
}

/// Law: the hover scenario runs end to end: from a settled Idle visual, a
/// tick with the pointer over the widget and not pressed starts the
/// Idle-to-Hovered cross-fade, and any later tick with the same input and
/// the full duration elapsed collapses it into the settled Hovered state.
pub proof fn lemma_hover_transition_runs_to_completion(t0: u64, t1: u64)
    requires
        t0 + TRANSITION_DURATION_MS <= t1,
    ensures
        spec_tick(
            spec_tick(WidgetVisualState::Stable(VisualState::Idle), t0, true, false),
            t1,
            true,
            false,
        ) == WidgetVisualState::Stable(VisualState::Hovered),
{
}

} // verus!
