//! GPIO gesture detection (debounce, click, double click, long press) and the
//! mapping from detected gestures to Action IDs.

use vstd::prelude::*;

use crate::common::udp::{ActionId, InputEvent};
use crate::node::config::{distinct_gpios, distinct_mappings, GpioInputConfig, InputMapping};

verus! {

pub const MAX_INPUT_CHANNELS: usize = 32;
pub const MAX_EVENTS_PER_SAMPLE: usize = 16;

/// The input side of a node configuration.
#[derive(Clone, Copy, Debug)]
pub struct InputConfig<'a> {
    pub gpio_inputs: &'a [GpioInputConfig],
    pub mappings: &'a [InputMapping],
    pub double_click_interval_ms: u32,
    pub long_press_threshold_ms: u32,
}

#[derive(Clone, Copy, Debug, PartialEq, Eq, Structural)]
pub struct DetectedInputEvent {
    pub gpio: u8,
    pub input_event: InputEvent,
}

#[derive(Clone, Copy, Debug, PartialEq, Eq, Structural)]
pub struct TriggeredAction {
    pub action_id: ActionId,
}

#[derive(Clone, Debug, PartialEq, Eq)]
pub struct InputSampleResult {
    pub input_events: Vec<DetectedInputEvent>,
    pub actions: Vec<TriggeredAction>,
}

#[derive(Clone, Copy, Debug, PartialEq, Eq, Structural)]
pub enum InputConfigError {
    TooManyInputs,
    DuplicateGpio(u8),
    MappingReferencesUnknownGpio(u8),
    DuplicateMapping { gpio: u8, input_event: InputEvent },
}

#[derive(Clone, Copy, Debug, PartialEq, Eq, Structural)]
pub enum InputProcessError {
    UnknownGpio(u8),
    TooManyEvents,
}

/// Per-GPIO gesture state machine.
///
/// `stable` is the debounced level, `candidate` the most recent raw level and
/// `candidate_since_ms` when it was first seen.  A released short press leaves
/// `pending_click_since_ms` set until the double-click window decides between
/// CLICK and DOUBLE_CLICK.
#[derive(Clone, Copy, Debug, PartialEq, Eq, Structural)]
pub struct GestureDetector {
    pub stable: bool,
    pub candidate: bool,
    pub candidate_since_ms: u64,
    pub pressed_since_ms: Option<u64>,
    pub long_press_emitted: bool,
    pub pending_click_since_ms: Option<u64>,
    pub second_click_in_progress: bool,
}

/// Milliseconds from `since` to `now`, zero when `now` is earlier.
pub open spec fn spec_elapsed(now: u64, since: u64) -> u64 {
    if now >= since {
        (now - since) as u64
    } else {
        0
    }
}

/// Internal consistency of a detector: it is pressed exactly while its
/// debounced level is active, and a second click in progress has already
/// consumed the pending first click.
pub open spec fn detector_wf(d: GestureDetector) -> bool {
    &&& (d.stable <==> d.pressed_since_ms is Some)
    &&& (d.second_click_in_progress ==> d.stable && d.pending_click_since_ms is None)
}

/// First stage of an update: a pending click is reported as CLICK once its
/// double-click window has passed, unless a second press started inside the
/// window and is still being debounced.
pub open spec fn click_timeout_stage(
    d: GestureDetector,
    active: bool,
    now: u64,
    double_click_interval_ms: u32,
) -> (GestureDetector, Seq<InputEvent>) {
    match d.pending_click_since_ms {
        Some(pending) => {
            let second_press_started_in_window = active && d.candidate != d.stable && d.candidate
                && spec_elapsed(d.candidate_since_ms, pending) <= double_click_interval_ms;
            if spec_elapsed(now, pending) > double_click_interval_ms
                && !second_press_started_in_window {
                (
                    GestureDetector {
                        pending_click_since_ms: None,
                        second_click_in_progress: false,
                        ..d
                    },
                    seq![InputEvent::Click],
                )
            } else {
                (d, Seq::empty())
            }
        },
        None => (d, Seq::empty()),
    }
}

/// Second stage: a raw change restarts debouncing; a level held for the
/// debounce time becomes the stable level and reports OFF_TO_ON or ON_TO_OFF.
/// A release also resolves a double click or starts a pending click, unless
/// the press already became a long press.
pub open spec fn debounce_stage(
    d: GestureDetector,
    active: bool,
    now: u64,
    debounce_ms: u16,
    double_click_interval_ms: u32,
) -> (GestureDetector, Seq<InputEvent>) {
    if active != d.candidate {
        (GestureDetector { candidate: active, candidate_since_ms: now, ..d }, Seq::empty())
    } else if d.candidate != d.stable && spec_elapsed(now, d.candidate_since_ms) >= debounce_ms {
        if d.candidate {
            let second = match d.pending_click_since_ms {
                Some(since) => spec_elapsed(d.candidate_since_ms, since)
                    <= double_click_interval_ms,
                None => false,
            };
            (
                GestureDetector {
                    stable: true,
                    pressed_since_ms: Some(now),
                    long_press_emitted: false,
                    second_click_in_progress: second,
                    pending_click_since_ms: if second {
                        None
                    } else {
                        d.pending_click_since_ms
                    },
                    ..d
                },
                seq![InputEvent::OffToOn],
            )
        } else if d.long_press_emitted {
            (
                GestureDetector {
                    stable: false,
                    pressed_since_ms: None,
                    second_click_in_progress: false,
                    ..d
                },
                seq![InputEvent::OnToOff],
            )
        } else if d.second_click_in_progress {
            (
                GestureDetector {
                    stable: false,
                    pending_click_since_ms: None,
                    second_click_in_progress: false,
                    pressed_since_ms: None,
                    ..d
                },
                seq![InputEvent::OnToOff, InputEvent::DoubleClick],
            )
        } else {
            (
                GestureDetector {
                    stable: false,
                    pending_click_since_ms: Some(now),
                    pressed_since_ms: None,
                    ..d
                },
                seq![InputEvent::OnToOff],
            )
        }
    } else {
        (d, Seq::empty())
    }
}

/// Third stage: a press held for the threshold reports LONG_PRESS once.
pub open spec fn long_press_stage(d: GestureDetector, now: u64, long_press_threshold_ms: u32) -> (
    GestureDetector,
    Seq<InputEvent>,
) {
    match d.pressed_since_ms {
        Some(pressed) => if d.stable && !d.long_press_emitted && spec_elapsed(now, pressed)
            >= long_press_threshold_ms {
            (GestureDetector { long_press_emitted: true, ..d }, seq![InputEvent::LongPress])
        } else {
            (d, Seq::empty())
        },
        None => (d, Seq::empty()),
    }
}

/// One sample of the gesture state machine: the new detector and the events
/// reported, in order.
pub open spec fn gesture_step(
    d: GestureDetector,
    active: bool,
    now: u64,
    debounce_ms: u16,
    double_click_interval_ms: u32,
    long_press_threshold_ms: u32,
) -> (GestureDetector, Seq<InputEvent>) {
    let (d1, e1) = click_timeout_stage(d, active, now, double_click_interval_ms);
    let (d2, e2) = debounce_stage(d1, active, now, debounce_ms, double_click_interval_ms);
    let (d3, e3) = long_press_stage(d2, now, long_press_threshold_ms);
    (d3, e1 + e2 + e3)
}

/// Appends `e` unless the bounded sample buffer is already full.
pub open spec fn push_bounded(s: Seq<InputEvent>, e: InputEvent) -> Seq<InputEvent> {
    if s.len() < MAX_EVENTS_PER_SAMPLE {
        s.push(e)
    } else {
        s
    }
}

/// Appends each of `events` in order, dropping those that do not fit.
pub open spec fn extend_bounded(s: Seq<InputEvent>, events: Seq<InputEvent>) -> Seq<InputEvent>
    decreases events.len(),
{
    if events.len() == 0 {
        s
    } else {
        push_bounded(extend_bounded(s, events.drop_last()), events.last())
    }
}

/// The initial detector state, released and idle.
pub open spec fn initial_detector() -> GestureDetector {
    GestureDetector {
        stable: false,
        candidate: false,
        candidate_since_ms: 0,
        pressed_since_ms: None,
        long_press_emitted: false,
        pending_click_since_ms: None,
        second_click_in_progress: false,
    }
}

/// The detector state right after sampling the level `active` at `now`.
pub open spec fn initialized_detector(active: bool, now_ms: u64) -> GestureDetector {
    GestureDetector {
        stable: active,
        candidate: active,
        candidate_since_ms: now_ms,
        pressed_since_ms: if active {
            Some(now_ms)
        } else {
            None
        },
        long_press_emitted: false,
        pending_click_since_ms: None,
        second_click_in_progress: false,
    }
}

/// A release that completes a double click consumes both presses: after a
/// sample that reports DOUBLE_CLICK no click is pending, so the window that
/// follows cannot turn the same presses into a CLICK.
pub proof fn law_double_click_leaves_nothing_pending(
    d: GestureDetector,
    active: bool,
    now: u64,
    debounce_ms: u16,
    double_click_interval_ms: u32,
    long_press_threshold_ms: u32,
)
    requires
        detector_wf(d),
    ensures
        ({
            let (next, events) = gesture_step(
                d,
                active,
                now,
                debounce_ms,
                double_click_interval_ms,
                long_press_threshold_ms,
            );
            events.contains(InputEvent::DoubleClick) ==> next.pending_click_since_ms is None
                && !next.second_click_in_progress
        }),
{
    let (d1, e1) = click_timeout_stage(d, active, now, double_click_interval_ms);
    let (d2, e2) = debounce_stage(d1, active, now, debounce_ms, double_click_interval_ms);
    let (d3, e3) = long_press_stage(d2, now, long_press_threshold_ms);
    let events = e1 + e2 + e3;
    if events.contains(InputEvent::DoubleClick) {
        let i = choose|i: int| 0 <= i < events.len() && events[i] == InputEvent::DoubleClick;
        if i < e1.len() {
            assert(events[i] == e1[i]);
        } else if i < e1.len() + e2.len() {
            assert(events[i] == e2[i - e1.len()]);
        } else {
            assert(events[i] == e3[i - e1.len() - e2.len()]);
        }
    }
}

/// Only a pending click becomes a CLICK: a sample taken while no click is
/// pending never reports CLICK.
pub proof fn law_click_needs_pending_click(
    d: GestureDetector,
    active: bool,
    now: u64,
    debounce_ms: u16,
    double_click_interval_ms: u32,
    long_press_threshold_ms: u32,
)
    requires
        d.pending_click_since_ms is None,
    ensures
        !gesture_step(
            d,
            active,
            now,
            debounce_ms,
            double_click_interval_ms,
            long_press_threshold_ms,
        ).1.contains(InputEvent::Click),
{
    let (d1, e1) = click_timeout_stage(d, active, now, double_click_interval_ms);
    let (d2, e2) = debounce_stage(d1, active, now, debounce_ms, double_click_interval_ms);
    let (d3, e3) = long_press_stage(d2, now, long_press_threshold_ms);
    let events = e1 + e2 + e3;
    assert(e1.len() == 0);
    if events.contains(InputEvent::Click) {
        let i = choose|i: int| 0 <= i < events.len() && events[i] == InputEvent::Click;
        if i < e1.len() + e2.len() {
            assert(events[i] == e2[i - e1.len()]);
        } else {
            assert(events[i] == e3[i - e1.len() - e2.len()]);
        }
    }
}

/// What each sample must report. A level held for the debounce time becomes
/// the debounced level with its OFF_TO_ON or ON_TO_OFF; the release of a
/// second press reports DOUBLE_CLICK, the release of any other short press
/// starts a pending click; a second press that settles inside the window of
/// a pending click consumes it; a pending click whose window has passed is
/// reported as CLICK on a released sample; a press held for the threshold
/// reports LONG_PRESS.
pub proof fn law_gestures_are_reported(
    d: GestureDetector,
    active: bool,
    now: u64,
    debounce_ms: u16,
    double_click_interval_ms: u32,
    long_press_threshold_ms: u32,
)
    requires
        detector_wf(d),
    ensures
        ({
            let (next, events) = gesture_step(
                d,
                active,
                now,
                debounce_ms,
                double_click_interval_ms,
                long_press_threshold_ms,
            );
            let settled = active == d.candidate && d.candidate != d.stable && spec_elapsed(
                now,
                d.candidate_since_ms,
            ) >= debounce_ms;
            &&& settled && active ==> events.contains(InputEvent::OffToOn) && next.stable
            &&& settled && !active ==> events.contains(InputEvent::OnToOff) && !next.stable
            &&& settled && !active && d.second_click_in_progress && !d.long_press_emitted
                ==> events.contains(InputEvent::DoubleClick) && next.pending_click_since_ms is None
            &&& settled && !active && !d.second_click_in_progress && !d.long_press_emitted
                ==> next.pending_click_since_ms == Some(now)
            &&& (d.pending_click_since_ms matches Some(p) && settled && active && spec_elapsed(
                d.candidate_since_ms,
                p,
            ) <= double_click_interval_ms) ==> next.second_click_in_progress
                && next.pending_click_since_ms is None && !events.contains(InputEvent::Click)
            &&& (d.pending_click_since_ms matches Some(p) && !active && spec_elapsed(now, p)
                > double_click_interval_ms) ==> events.contains(InputEvent::Click)
            &&& (d.pressed_since_ms matches Some(p) && active && d.candidate && d.stable
                && !d.long_press_emitted && spec_elapsed(now, p) >= long_press_threshold_ms) ==> events.contains(InputEvent::LongPress)
                && next.long_press_emitted
        }),
{
    let (d1, e1) = click_timeout_stage(d, active, now, double_click_interval_ms);
    let (d2, e2) = debounce_stage(d1, active, now, debounce_ms, double_click_interval_ms);
    let (d3, e3) = long_press_stage(d2, now, long_press_threshold_ms);
    let events = e1 + e2 + e3;
    if e1.len() > 0 {
        assert(events[0] == e1[0]);
    }
    if e2.len() > 0 {
        assert(events[e1.len() as int] == e2[0]);
    }
    if e2.len() > 1 {
        assert(events[e1.len() as int + 1] == e2[1]);
    }
    if e3.len() > 0 {
        assert(events[(e1.len() + e2.len()) as int] == e3[0]);
    }
    if !e1.contains(InputEvent::Click) && !e2.contains(InputEvent::Click) && !e3.contains(
        InputEvent::Click,
    ) {
        assert(!events.contains(InputEvent::Click)) by {
            if events.contains(InputEvent::Click) {
                let i = choose|i: int| 0 <= i < events.len() && events[i] == InputEvent::Click;
                if i < e1.len() {
                    assert(events[i] == e1[i]);
                } else if i < e1.len() + e2.len() {
                    assert(events[i] == e2[i - e1.len()]);
                } else {
                    assert(events[i] == e3[i - e1.len() - e2.len()]);
                }
            }
        }
    }
}

/// Every sample preserves the detector's internal consistency.
pub proof fn law_gesture_step_preserves_wf(
    d: GestureDetector,
    active: bool,
    now: u64,
    debounce_ms: u16,
    double_click_interval_ms: u32,
    long_press_threshold_ms: u32,
)
    requires
        detector_wf(d),
    ensures
        detector_wf(
            gesture_step(
                d,
                active,
                now,
                debounce_ms,
                double_click_interval_ms,
                long_press_threshold_ms,
            ).0,
        ),
{
}

/// One sample reports at most four events, so a sample never overflows the
/// per-sample event buffer.
pub proof fn law_gesture_step_reports_at_most_four_events(
    d: GestureDetector,
    active: bool,
    now: u64,
    debounce_ms: u16,
    double_click_interval_ms: u32,
    long_press_threshold_ms: u32,
)
    ensures
        gesture_step(
            d,
            active,
            now,
            debounce_ms,
            double_click_interval_ms,
            long_press_threshold_ms,
        ).1.len() <= 4,
{
}

/// CLICK and DOUBLE_CLICK are never reported for the same operation: no
/// sample reports both, and once a second press has consumed the pending
/// first click (a double click in progress), that first click can no longer
/// time out into a CLICK.
pub proof fn law_click_and_double_click_exclusive(
    d: GestureDetector,
    active: bool,
    now: u64,
    debounce_ms: u16,
    double_click_interval_ms: u32,
    long_press_threshold_ms: u32,
)
    requires
        detector_wf(d),
    ensures
        ({
            let (d2, events) = gesture_step(
                d,
                active,
                now,
                debounce_ms,
                double_click_interval_ms,
                long_press_threshold_ms,
            );
            &&& !(events.contains(InputEvent::Click) && events.contains(InputEvent::DoubleClick))
            &&& d.second_click_in_progress ==> !events.contains(InputEvent::Click)
            &&& d2.second_click_in_progress ==> d2.pending_click_since_ms is None
        }),
{
    let (d1, e1) = click_timeout_stage(d, active, now, double_click_interval_ms);
    let (d2, e2) = debounce_stage(d1, active, now, debounce_ms, double_click_interval_ms);
    let (d3, e3) = long_press_stage(d2, now, long_press_threshold_ms);
    assert(!e2.contains(InputEvent::Click));
    assert(!e3.contains(InputEvent::Click) && !e3.contains(InputEvent::DoubleClick));
    assert(!e1.contains(InputEvent::DoubleClick));
    if e1.contains(InputEvent::Click) {
        assert(!d1.second_click_in_progress);
        assert(!e2.contains(InputEvent::DoubleClick));
    }
    let events = e1 + e2 + e3;
    assert(events.contains(InputEvent::Click) ==> e1.contains(InputEvent::Click)) by {
        if events.contains(InputEvent::Click) {
            let i = choose|i: int| 0 <= i < events.len() && events[i] == InputEvent::Click;
            if i >= e1.len() + e2.len() {
                assert(e3[i - e1.len() - e2.len()] == InputEvent::Click);
            } else if i >= e1.len() {
                assert(e2[i - e1.len()] == InputEvent::Click);
            }
        }
    }
    assert(events.contains(InputEvent::DoubleClick) ==> e2.contains(InputEvent::DoubleClick)) by {
        if events.contains(InputEvent::DoubleClick) {
            let i = choose|i: int| 0 <= i < events.len() && events[i] == InputEvent::DoubleClick;
            if i >= e1.len() + e2.len() {
                assert(e3[i - e1.len() - e2.len()] == InputEvent::DoubleClick);
            } else if i < e1.len() {
                assert(e1[i] == InputEvent::DoubleClick);
            } else {
                assert(e2[i - e1.len()] == InputEvent::DoubleClick);
            }
        }
    }
}

/// Events are only reported after debouncing: OFF_TO_ON (ON_TO_OFF) needs the
/// raw level to have been active (inactive) for the whole debounce time while
/// the debounced level was still the opposite one.
pub proof fn law_edges_are_debounced(
    d: GestureDetector,
    active: bool,
    now: u64,
    debounce_ms: u16,
    double_click_interval_ms: u32,
    long_press_threshold_ms: u32,
)
    ensures
        ({
            let events = gesture_step(
                d,
                active,
                now,
                debounce_ms,
                double_click_interval_ms,
                long_press_threshold_ms,
            ).1;
            &&& events.contains(InputEvent::OffToOn) ==> {
                &&& active && d.candidate && !d.stable
                &&& spec_elapsed(now, d.candidate_since_ms) >= debounce_ms
            }
            &&& events.contains(InputEvent::OnToOff) ==> {
                &&& !active && !d.candidate && d.stable
                &&& spec_elapsed(now, d.candidate_since_ms) >= debounce_ms
            }
        }),
{
    lemma_step_event_origin(d, active, now, debounce_ms, double_click_interval_ms, long_press_threshold_ms);
}

/// A CLICK is reported only after the double-click window of a pending click
/// has passed; a DOUBLE_CLICK only on the release of a second press that began
/// inside that window and did not become a long press.
pub proof fn law_click_timing(
    d: GestureDetector,
    active: bool,
    now: u64,
    debounce_ms: u16,
    double_click_interval_ms: u32,
    long_press_threshold_ms: u32,
)
    ensures
        ({
            let events = gesture_step(
                d,
                active,
                now,
                debounce_ms,
                double_click_interval_ms,
                long_press_threshold_ms,
            ).1;
            &&& events.contains(InputEvent::Click) ==> (d.pending_click_since_ms matches Some(p)
                && spec_elapsed(now, p) > double_click_interval_ms)
            &&& events.contains(InputEvent::DoubleClick) ==> d.second_click_in_progress
                && !d.long_press_emitted && d.stable && !active
        }),
{
    lemma_step_event_origin(d, active, now, debounce_ms, double_click_interval_ms, long_press_threshold_ms);
}

/// LONG_PRESS is reported at most once per press, and a press that became a
/// long press is released without DOUBLE_CLICK and without starting a
/// pending click.
pub proof fn law_long_press_once_and_never_a_click(
    d: GestureDetector,
    active: bool,
    now: u64,
    debounce_ms: u16,
    double_click_interval_ms: u32,
    long_press_threshold_ms: u32,
)
    ensures
        ({
            let (d2, events) = gesture_step(
                d,
                active,
                now,
                debounce_ms,
                double_click_interval_ms,
                long_press_threshold_ms,
            );
            &&& d.stable && d.long_press_emitted ==> {
                &&& !events.contains(InputEvent::LongPress)
                &&& !events.contains(InputEvent::DoubleClick)
                &&& d2.long_press_emitted
                &&& (d2.pending_click_since_ms is None || d2.pending_click_since_ms
                    == d.pending_click_since_ms)
            }
            &&& events.contains(InputEvent::LongPress) ==> d2.stable && d2.long_press_emitted
        }),
{
    lemma_step_event_origin(d, active, now, debounce_ms, double_click_interval_ms, long_press_threshold_ms);
}

/// Where each event of a sample comes from.
proof fn lemma_step_event_origin(
    d: GestureDetector,
    active: bool,
    now: u64,
    debounce_ms: u16,
    double_click_interval_ms: u32,
    long_press_threshold_ms: u32,
)
    ensures
        ({
            let (d1, e1) = click_timeout_stage(d, active, now, double_click_interval_ms);
            let (d2, e2) = debounce_stage(d1, active, now, debounce_ms, double_click_interval_ms);
            let (d3, e3) = long_press_stage(d2, now, long_press_threshold_ms);
            let events = gesture_step(
                d,
                active,
                now,
                debounce_ms,
                double_click_interval_ms,
                long_press_threshold_ms,
            ).1;
            &&& events == e1 + e2 + e3
            &&& forall|e: InputEvent| #[trigger] events.contains(e) ==> e1.contains(e) || e2.contains(e) || e3.contains(e)
        }),
{
    let (d1, e1) = click_timeout_stage(d, active, now, double_click_interval_ms);
    let (d2, e2) = debounce_stage(d1, active, now, debounce_ms, double_click_interval_ms);
    let (d3, e3) = long_press_stage(d2, now, long_press_threshold_ms);
    let events = e1 + e2 + e3;
    assert forall|e: InputEvent| #[trigger] events.contains(e) implies e1.contains(e) || e2.contains(e)
        || e3.contains(e) by {
        let i = choose|i: int| 0 <= i < events.len() && events[i] == e;
        if i < e1.len() {
            assert(e1[i] == e);
        } else if i < e1.len() + e2.len() {
            assert(e2[i - e1.len()] == e);
        } else {
            assert(e3[i - e1.len() - e2.len()] == e);
        }
    }
}

/// Saturating elapsed time in milliseconds.
pub fn elapsed(now_ms: u64, since_ms: u64) -> (r: u64)
    ensures
        r == spec_elapsed(now_ms, since_ms),
{
    now_ms.saturating_sub(since_ms)
}

/// Appends an event, silently dropping it when the buffer is full.
pub fn push_event(output: &mut Vec<InputEvent>, event: InputEvent)
    ensures
        final(output)@ == push_bounded(old(output)@, event),
{
    if output.len() < MAX_EVENTS_PER_SAMPLE {
        output.push(event);
    }
}

proof fn lemma_extend_bounded_push(s: Seq<InputEvent>, events: Seq<InputEvent>, e: InputEvent)
    ensures
        extend_bounded(s, events.push(e)) == push_bounded(extend_bounded(s, events), e),
{
    assert(events.push(e).drop_last() =~= events);
}

proof fn lemma_extend_bounded_empty(s: Seq<InputEvent>)
    ensures
        extend_bounded(s, Seq::empty()) == s,
{
}

impl GestureDetector {
    pub fn new() -> (d: Self)
        ensures
            d == initial_detector(),
            detector_wf(d),
    {
        GestureDetector {
            stable: false,
            candidate: false,
            candidate_since_ms: 0,
            pressed_since_ms: None,
            long_press_emitted: false,
            pending_click_since_ms: None,
            second_click_in_progress: false,
        }
    }

    pub fn initialize(&mut self, active: bool, now_ms: u64)
        ensures
            *final(self) == initialized_detector(active, now_ms),
            detector_wf(*final(self)),
    {
        self.stable = active;
        self.candidate = active;
        self.candidate_since_ms = now_ms;
        self.pressed_since_ms = if active {
            Some(now_ms)
        } else {
            None
        };
        self.long_press_emitted = false;
        self.pending_click_since_ms = None;
        self.second_click_in_progress = false;
    }

    /// Processes one sample and appends the detected events to `output`.
    pub fn update(
        &mut self,
        active: bool,
        now_ms: u64,
        debounce_ms: u16,
        double_click_interval_ms: u32,
        long_press_threshold_ms: u32,
        output: &mut Vec<InputEvent>,
    )
        ensures
            ({
                let (d, events) = gesture_step(
                    *old(self),
                    active,
                    now_ms,
                    debounce_ms,
                    double_click_interval_ms,
                    long_press_threshold_ms,
                );
                &&& *final(self) == d
                &&& final(output)@ == extend_bounded(old(output)@, events)
            }),
    {
        let ghost d0 = *self;
        let ghost out0 = output@;
        let ghost (d1, e1) = click_timeout_stage(d0, active, now_ms, double_click_interval_ms);
        let ghost (d2, e2) = debounce_stage(d1, active, now_ms, debounce_ms, double_click_interval_ms);
        let ghost (d3, e3) = long_press_stage(d2, now_ms, long_press_threshold_ms);

        if let Some(pending_since_ms) = self.pending_click_since_ms {
            let second_press_started_in_window = active && self.candidate != self.stable
                && self.candidate && elapsed(self.candidate_since_ms, pending_since_ms)
                <= double_click_interval_ms as u64;
            if elapsed(now_ms, pending_since_ms) > double_click_interval_ms as u64
                && !second_press_started_in_window {
                push_event(output, InputEvent::Click);
                self.pending_click_since_ms = None;
                self.second_click_in_progress = false;
            }
        }
        proof {
            lemma_extend_bounded_empty(out0);
            lemma_extend_bounded_push(out0, Seq::empty(), InputEvent::Click);
            assert(Seq::<InputEvent>::empty().push(InputEvent::Click) =~= seq![InputEvent::Click]);
        }
        assert(*self == d1);
        assert(output@ == extend_bounded(out0, e1));
        let ghost out1 = output@;

        if active != self.candidate {
            self.candidate = active;
            self.candidate_since_ms = now_ms;
        } else if self.candidate != self.stable && elapsed(now_ms, self.candidate_since_ms)
            >= debounce_ms as u64 {
            self.stable = self.candidate;
            if self.stable {
                push_event(output, InputEvent::OffToOn);
                proof {
                    lemma_extend_bounded_push(out0, e1, InputEvent::OffToOn);
                }
                self.pressed_since_ms = Some(now_ms);
                self.long_press_emitted = false;
                self.second_click_in_progress = match self.pending_click_since_ms {
                    Some(since) => elapsed(self.candidate_since_ms, since)
                        <= double_click_interval_ms as u64,
                    None => false,
                };
                if self.second_click_in_progress {
                    self.pending_click_since_ms = None;
                }
            } else {
                push_event(output, InputEvent::OnToOff);
                proof {
                    lemma_extend_bounded_push(out0, e1, InputEvent::OnToOff);
                }
                if self.long_press_emitted {
                    self.pressed_since_ms = None;
                    self.second_click_in_progress = false;
                } else if self.second_click_in_progress {
                    push_event(output, InputEvent::DoubleClick);
                    proof {
                        lemma_extend_bounded_push(
                            out0,
                            e1.push(InputEvent::OnToOff),
                            InputEvent::DoubleClick,
                        );
                    }
                    self.pending_click_since_ms = None;
                    self.second_click_in_progress = false;
                    self.pressed_since_ms = None;
                } else {
                    self.pending_click_since_ms = Some(now_ms);
                    self.pressed_since_ms = None;
                }
            }
        }
        assert(*self == d2);
        assert(output@ == extend_bounded(out0, e1 + e2)) by {
            if e2.len() == 0 {
                assert(e1 + e2 =~= e1);
            } else if e2.len() == 1 {
                assert(e1 + e2 =~= e1.push(e2[0]));
            } else {
                assert(e1 + e2 =~= e1.push(e2[0]).push(e2[1]));
            }
        }

        if self.stable && !self.long_press_emitted {
            if let Some(pressed_since_ms) = self.pressed_since_ms {
                if elapsed(now_ms, pressed_since_ms) >= long_press_threshold_ms as u64 {
                    push_event(output, InputEvent::LongPress);
                    proof {
                        lemma_extend_bounded_push(out0, e1 + e2, InputEvent::LongPress);
                    }
                    self.long_press_emitted = true;
                }
            }
        }
        assert(*self == d3);
        assert(output@ == extend_bounded(out0, e1 + e2 + e3)) by {
            if e3.len() == 0 {
                assert(e1 + e2 + e3 =~= e1 + e2);
            } else {
                assert(e1 + e2 + e3 =~= (e1 + e2).push(InputEvent::LongPress));
            }
        }
    }
}

} // verus!

verus! {

/// One configured GPIO input with its gesture state.
#[derive(Clone, Copy, Debug, PartialEq, Eq, Structural)]
pub struct RuntimeInput {
    pub gpio: u8,
    pub active_high: bool,
    pub debounce_ms: u16,
    pub detector: GestureDetector,
}

/// The debounced level of a raw GPIO reading for the input's polarity.
pub open spec fn spec_active(active_high: bool, raw_high: bool) -> bool {
    if active_high {
        raw_high
    } else {
        !raw_high
    }
}

pub open spec fn gpio_listed_before(g: Seq<GpioInputConfig>, i: int) -> bool {
    exists|j: int| 0 <= j < i && g[j].gpio == g[i].gpio
}

/// The first error found when registering `g[i..]`, in order: a GPIO that was
/// already registered, or a GPIO beyond the channel capacity.
pub open spec fn gpio_inputs_error_from(g: Seq<GpioInputConfig>, i: nat) -> Option<InputConfigError>
    decreases g.len() - i,
{
    if i >= g.len() {
        None
    } else if gpio_listed_before(g, i as int) {
        Some(InputConfigError::DuplicateGpio(g[i as int].gpio))
    } else if i >= MAX_INPUT_CHANNELS {
        Some(InputConfigError::TooManyInputs)
    } else {
        gpio_inputs_error_from(g, i + 1)
    }
}

pub open spec fn gpio_known(g: Seq<GpioInputConfig>, gpio: u8) -> bool {
    exists|j: int| 0 <= j < g.len() && g[j].gpio == gpio
}

pub open spec fn mapping_repeated_after(m: Seq<InputMapping>, i: int) -> bool {
    exists|k: int|
        i < k < m.len() && m[k].gpio == m[i].gpio && m[k].input_event == m[i].input_event
}

/// The first error among the mappings `m[i..]`, in order: a mapping to an
/// unregistered GPIO, or a GPIO and event pair mapped again later.
pub open spec fn mapping_error_from(
    g: Seq<GpioInputConfig>,
    m: Seq<InputMapping>,
    i: nat,
) -> Option<InputConfigError>
    decreases m.len() - i,
{
    if i >= m.len() {
        None
    } else if !gpio_known(g, m[i as int].gpio) {
        Some(InputConfigError::MappingReferencesUnknownGpio(m[i as int].gpio))
    } else if mapping_repeated_after(m, i as int) {
        Some(
            InputConfigError::DuplicateMapping {
                gpio: m[i as int].gpio,
                input_event: m[i as int].input_event,
            },
        )
    } else {
        mapping_error_from(g, m, i + 1)
    }
}

/// The error `InputController::new` reports for an input configuration, if any.
pub open spec fn input_config_error(g: Seq<GpioInputConfig>, m: Seq<InputMapping>) -> Option<
    InputConfigError,
> {
    match gpio_inputs_error_from(g, 0) {
        Some(e) => Some(e),
        None => mapping_error_from(g, m, 0),
    }
}

/// A freshly registered channel.
pub open spec fn runtime_input_of(c: GpioInputConfig) -> RuntimeInput {
    RuntimeInput {
        gpio: c.gpio,
        active_high: c.active_high,
        debounce_ms: c.debounce_ms,
        detector: initial_detector(),
    }
}

/// The Action IDs that the enabled mappings in `m` assign to `event` on `gpio`,
/// in mapping order.
pub open spec fn matching_actions(m: Seq<InputMapping>, gpio: u8, event: InputEvent) -> Seq<
    TriggeredAction,
>
    decreases m.len(),
{
    if m.len() == 0 {
        Seq::empty()
    } else {
        let rest = matching_actions(m.drop_last(), gpio, event);
        let x = m.last();
        if x.enabled && x.gpio == gpio && x.input_event == event {
            rest.push(TriggeredAction { action_id: x.action_id })
        } else {
            rest
        }
    }
}

/// The Action IDs triggered by `events` on `gpio`, event by event.
pub open spec fn actions_for(m: Seq<InputMapping>, gpio: u8, events: Seq<InputEvent>) -> Seq<
    TriggeredAction,
>
    decreases events.len(),
{
    if events.len() == 0 {
        Seq::empty()
    } else {
        actions_for(m, gpio, events.drop_last()) + matching_actions(m, gpio, events.last())
    }
}

pub open spec fn detected_on(gpio: u8, events: Seq<InputEvent>) -> Seq<DetectedInputEvent> {
    events.map_values(|e: InputEvent| DetectedInputEvent { gpio, input_event: e })
}

/// Whether a mapping triggers an action for `event` on `gpio`.
pub open spec fn triggers(x: InputMapping, gpio: u8, event: InputEvent) -> bool {
    x.enabled && x.gpio == gpio && x.input_event == event
}

/// The actions for one gesture are those of the enabled mappings for its
/// GPIO and input event, in the order of the mappings.
pub proof fn law_actions_follow_mappings(m: Seq<InputMapping>, gpio: u8, event: InputEvent)
    ensures
        matching_actions(m, gpio, event) == m.filter(|x: InputMapping| triggers(x, gpio, event)).map_values(
            |x: InputMapping| TriggeredAction { action_id: x.action_id },
        ),
    decreases m.len(),
{
    reveal_with_fuel(Seq::<InputMapping>::filter, 1);
    if m.len() > 0 {
        law_actions_follow_mappings(m.drop_last(), gpio, event);
        let pred = |x: InputMapping| triggers(x, gpio, event);
        let f = |x: InputMapping| TriggeredAction { action_id: x.action_id };
        let sub = m.drop_last().filter(pred);
        if pred(m.last()) {
            assert(sub.push(m.last()).map_values(f) =~= sub.map_values(f).push(f(m.last())));
        }
    }
}

/// Input `k` of `g` can be registered: its GPIO was not registered before
/// and a channel is left for it.
pub open spec fn channel_free(g: Seq<GpioInputConfig>, k: int) -> bool {
    !gpio_listed_before(g, k) && k < MAX_INPUT_CHANNELS
}

proof fn lemma_gpio_inputs_valid_from(g: Seq<GpioInputConfig>, i: nat)
    ensures
        gpio_inputs_error_from(g, i) is None <==> forall|k: int|
            i <= k < g.len() ==> #[trigger] channel_free(g, k),
    decreases g.len() - i,
{
    if i < g.len() {
        lemma_gpio_inputs_valid_from(g, i + 1);
        assert(channel_free(g, i as int) ==> gpio_inputs_error_from(g, i) == gpio_inputs_error_from(
            g,
            i + 1,
        ));
        assert(!channel_free(g, i as int) ==> gpio_inputs_error_from(g, i) is Some);
    }
}

proof fn lemma_input_mappings_valid_from(g: Seq<GpioInputConfig>, m: Seq<InputMapping>, i: nat)
    ensures
        mapping_error_from(g, m, i) is None <==> forall|k: int|
            i <= k < m.len() ==> gpio_known(g, #[trigger] m[k].gpio) && !mapping_repeated_after(m, k),
    decreases m.len() - i,
{
    if i < m.len() {
        lemma_input_mappings_valid_from(g, m, i + 1);
    }
}

/// A controller is built exactly when no GPIO is registered twice, there
/// are at most `MAX_INPUT_CHANNELS` inputs, every mapping names a registered
/// GPIO and no GPIO and input event is mapped twice. Otherwise the first
/// problem is reported, the inputs before the mappings: for the inputs in
/// order, a GPIO registered earlier, then a channel beyond the capacity.
pub proof fn law_input_config_accepted_exactly_when_valid(g: Seq<GpioInputConfig>, m: Seq<InputMapping>)
    ensures
        input_config_error(g, m) is None <==> {
            &&& distinct_gpios(g)
            &&& g.len() <= MAX_INPUT_CHANNELS
            &&& forall|k: int| 0 <= k < m.len() ==> gpio_known(g, #[trigger] m[k].gpio)
            &&& distinct_mappings(m)
        },
        gpio_inputs_error_from(g, 0) is Some ==> input_config_error(g, m) == gpio_inputs_error_from(g, 0),
{
    lemma_gpio_inputs_valid_from(g, 0);
    lemma_input_mappings_valid_from(g, m, 0);
    if distinct_gpios(g) && g.len() <= MAX_INPUT_CHANNELS {
        assert forall|k: int| 0 <= k < g.len() implies #[trigger] channel_free(g, k) by {
            if gpio_listed_before(g, k) {
                let j = choose|j: int| 0 <= j < k && g[j].gpio == g[k].gpio;
                assert(g[j].gpio != g[k].gpio);
            }
        }
    }
    if forall|k: int| 0 <= k < g.len() ==> #[trigger] channel_free(g, k) {
        assert forall|i: int, j: int| 0 <= i < j < g.len() implies #[trigger] g[i].gpio != #[trigger] g[j].gpio by {
            assert(channel_free(g, j));
        }
        if g.len() > MAX_INPUT_CHANNELS {
            assert(channel_free(g, MAX_INPUT_CHANNELS as int));
        }
    }
    if distinct_mappings(m) {
        assert forall|k: int| 0 <= k < m.len() implies !mapping_repeated_after(m, k) by {
            if mapping_repeated_after(m, k) {
                let j = choose|j: int|
                    k < j < m.len() && m[j].gpio == m[k].gpio && m[j].input_event == m[k].input_event;
                assert(!(m[k].gpio == m[j].gpio && m[k].input_event == m[j].input_event));
            }
        }
    }
    if forall|k: int| 0 <= k < m.len() ==> !mapping_repeated_after(m, k) {
        assert forall|i: int, j: int| 0 <= i < j < m.len() implies !(#[trigger] m[i].gpio
            == #[trigger] m[j].gpio && m[i].input_event == m[j].input_event) by {
            assert(!mapping_repeated_after(m, i));
        }
    }
}

proof fn lemma_extend_bounded_fits(s: Seq<InputEvent>, events: Seq<InputEvent>)
    requires
        s.len() + events.len() <= MAX_EVENTS_PER_SAMPLE,
    ensures
        extend_bounded(s, events) == s + events,
    decreases events.len(),
{
    if events.len() > 0 {
        lemma_extend_bounded_fits(s, events.drop_last());
        assert(s + events.drop_last() + seq![events.last()] =~= s + events);
        assert((s + events.drop_last()).push(events.last()) =~= s + events);
    } else {
        assert(s + events =~= s);
    }
}

proof fn lemma_matching_prefix_len(m: Seq<InputMapping>, gpio: u8, event: InputEvent, j: int)
    requires
        0 <= j <= m.len(),
    ensures
        matching_actions(m.take(j), gpio, event).len() <= matching_actions(m, gpio, event).len(),
    decreases m.len() - j,
{
    if j < m.len() {
        lemma_matching_prefix_len(m, gpio, event, j + 1);
        assert(m.take(j + 1).drop_last() =~= m.take(j));
    } else {
        assert(m.take(j) =~= m);
    }
}

proof fn lemma_actions_prefix_len(m: Seq<InputMapping>, gpio: u8, events: Seq<InputEvent>, k: int)
    requires
        0 <= k <= events.len(),
    ensures
        actions_for(m, gpio, events.take(k)).len() <= actions_for(m, gpio, events).len(),
    decreases events.len() - k,
{
    if k < events.len() {
        lemma_actions_prefix_len(m, gpio, events, k + 1);
        assert(events.take(k + 1).drop_last() =~= events.take(k));
    } else {
        assert(events.take(k) =~= events);
    }
}

/// Turns GPIO samples into detected gestures and the Action IDs mapped to them.
pub struct InputController<'a> {
    mappings: &'a [InputMapping],
    double_click_interval_ms: u32,
    long_press_threshold_ms: u32,
    inputs: Vec<RuntimeInput>,
}

impl<'a> InputController<'a> {
    pub closed spec fn spec_mappings(&self) -> Seq<InputMapping> {
        self.mappings@
    }

    pub closed spec fn spec_inputs(&self) -> Seq<RuntimeInput> {
        self.inputs@
    }

    pub closed spec fn spec_double_click_interval_ms(&self) -> u32 {
        self.double_click_interval_ms
    }

    pub closed spec fn spec_long_press_threshold_ms(&self) -> u32 {
        self.long_press_threshold_ms
    }

    /// Channels have distinct GPIOs and fit the channel capacity.
    #[verifier::type_invariant]
    pub open spec fn wf(&self) -> bool {
        &&& self.spec_inputs().len() <= MAX_INPUT_CHANNELS
        &&& forall|i: int, j: int|
            0 <= i < j < self.spec_inputs().len() ==> self.spec_inputs()[i].gpio
                != self.spec_inputs()[j].gpio
    }

    #[verifier::loop_isolation(false)]
    pub fn new(config: InputConfig<'a>) -> (r: Result<Self, InputConfigError>)
        ensures
            match r {
                Ok(c) => {
                    &&& input_config_error(config.gpio_inputs@, config.mappings@) is None
                    &&& c.wf()
                    &&& c.spec_inputs() == config.gpio_inputs@.map_values(
                        |x: GpioInputConfig| runtime_input_of(x),
                    )
                    &&& c.spec_mappings() == config.mappings@
                    &&& c.spec_double_click_interval_ms() == config.double_click_interval_ms
                    &&& c.spec_long_press_threshold_ms() == config.long_press_threshold_ms
                },
                Err(e) => input_config_error(config.gpio_inputs@, config.mappings@) == Some(e),
            },
    {
        let g = config.gpio_inputs;
        let m = config.mappings;
        let mut inputs: Vec<RuntimeInput> = Vec::new();
        let mut i: usize = 0;
        while i < g.len()
            invariant
                i <= g@.len(),
                i <= MAX_INPUT_CHANNELS,
                inputs@ == g@.take(i as int).map_values(|x: GpioInputConfig| runtime_input_of(x)),
                gpio_inputs_error_from(g@, 0) == gpio_inputs_error_from(g@, i as nat),
                forall|a: int, b: int| 0 <= a < b < i ==> g@[a].gpio != g@[b].gpio,
            decreases g@.len() - i,
        {
            let gpio = g[i].gpio;
            let mut j: usize = 0;
            while j < inputs.len()
                invariant
                    j <= inputs@.len(),
                    inputs@.len() == i,
                    i < g@.len(),
                    gpio == g@[i as int].gpio,
                    inputs@ == g@.take(i as int).map_values(|x: GpioInputConfig| runtime_input_of(x)),
                    forall|k: int| 0 <= k < j ==> g@[k].gpio != gpio,
                decreases inputs@.len() - j,
            {
                assert(inputs@[j as int] == runtime_input_of(g@[j as int]));
                if inputs[j].gpio == gpio {
                    assert(gpio_listed_before(g@, i as int));
                    return Err(InputConfigError::DuplicateGpio(gpio));
                }
                j = j + 1;
            }
            assert(!gpio_listed_before(g@, i as int));
            if inputs.len() >= MAX_INPUT_CHANNELS {
                return Err(InputConfigError::TooManyInputs);
            }
            inputs.push(
                RuntimeInput {
                    gpio,
                    active_high: g[i].active_high,
                    debounce_ms: g[i].debounce_ms,
                    detector: GestureDetector::new(),
                },
            );
            assert(g@.take(i as int + 1) =~= g@.take(i as int).push(g@[i as int]));
            i = i + 1;
        }
        assert(g@.take(g@.len() as int) =~= g@);
        assert(gpio_inputs_error_from(g@, 0) is None);

        let mut k: usize = 0;
        while k < m.len()
            invariant
                k <= m@.len(),
                inputs@ == g@.map_values(|x: GpioInputConfig| runtime_input_of(x)),
                input_config_error(g@, m@) == mapping_error_from(g@, m@, k as nat),
            decreases m@.len() - k,
        {
            let gpio = m[k].gpio;
            let event = m[k].input_event;
            let mut known = false;
            let mut j: usize = 0;
            while j < inputs.len()
                invariant
                    j <= inputs@.len(),
                    inputs@ == g@.map_values(|x: GpioInputConfig| runtime_input_of(x)),
                    known <==> exists|a: int| 0 <= a < j && g@[a].gpio == gpio,
                decreases inputs@.len() - j,
            {
                assert(inputs@[j as int].gpio == g@[j as int].gpio);
                if inputs[j].gpio == gpio {
                    known = true;
                }
                j = j + 1;
            }
            if !known {
                return Err(InputConfigError::MappingReferencesUnknownGpio(gpio));
            }
            let mut later: usize = k + 1;
            while later < m.len()
                invariant
                    k < later <= m@.len(),
                    gpio == m@[k as int].gpio,
                    event == m@[k as int].input_event,
                    forall|b: int|
                        k < b < later ==> !(m@[b].gpio == gpio && m@[b].input_event == event),
                decreases m@.len() - later,
            {
                if m[later].gpio == gpio && m[later].input_event == event {
                    assert(mapping_repeated_after(m@, k as int));
                    return Err(InputConfigError::DuplicateMapping { gpio, input_event: event });
                }
                later = later + 1;
            }
            assert(!mapping_repeated_after(m@, k as int));
            k = k + 1;
        }
        proof {
            assert forall|a: int, b: int|
                0 <= a < b < inputs@.len() implies inputs@[a].gpio != inputs@[b].gpio by {
                assert(inputs@[a].gpio == g@[a].gpio);
                assert(inputs@[b].gpio == g@[b].gpio);
            }
        }
        Ok(
            InputController {
                mappings: m,
                double_click_interval_ms: config.double_click_interval_ms,
                long_press_threshold_ms: config.long_press_threshold_ms,
                inputs,
            },
        )
    }

    pub fn set_gesture_timing(&mut self, double_click_interval_ms: u32, long_press_threshold_ms: u32)
        ensures
            final(self).spec_double_click_interval_ms() == double_click_interval_ms,
            final(self).spec_long_press_threshold_ms() == long_press_threshold_ms,
            final(self).spec_inputs() == old(self).spec_inputs(),
            final(self).spec_mappings() == old(self).spec_mappings(),
    {
        proof {
            use_type_invariant(&*self);
        }
        self.double_click_interval_ms = double_click_interval_ms;
        self.long_press_threshold_ms = long_press_threshold_ms;
    }

    pub fn has_gpio(&self, gpio: u8) -> (r: bool)
        ensures
            r <==> exists|i: int| 0 <= i < self.spec_inputs().len() && self.spec_inputs()[i].gpio == gpio,
    {
        let mut i: usize = 0;
        while i < self.inputs.len()
            invariant
                i <= self.inputs@.len(),
                forall|k: int| 0 <= k < i ==> self.inputs@[k].gpio != gpio,
            decreases self.inputs@.len() - i,
        {
            if self.inputs[i].gpio == gpio {
                return true;
            }
            i = i + 1;
        }
        false
    }

    pub fn gesture_timing(&self) -> (r: (u32, u32))
        ensures
            r == (self.spec_double_click_interval_ms(), self.spec_long_press_threshold_ms()),
    {
        (self.double_click_interval_ms, self.long_press_threshold_ms)
    }

    fn find_channel(&self, gpio: u8) -> (r: Option<usize>)
        ensures
            match r {
                Some(i) => i < self.spec_inputs().len() && self.spec_inputs()[i as int].gpio == gpio,
                None => forall|i: int|
                    0 <= i < self.spec_inputs().len() ==> self.spec_inputs()[i].gpio != gpio,
            },
    {
        let mut i: usize = 0;
        while i < self.inputs.len()
            invariant
                i <= self.inputs@.len(),
                forall|k: int| 0 <= k < i ==> self.inputs@[k].gpio != gpio,
            decreases self.inputs@.len() - i,
        {
            if self.inputs[i].gpio == gpio {
                return Some(i);
            }
            i = i + 1;
        }
        None
    }

    /// Puts `input` in the place of channel `i`, which has the same GPIO.
    fn replace_input(&mut self, i: usize, input: RuntimeInput)
        requires
            i < old(self).spec_inputs().len(),
            input.gpio == old(self).spec_inputs()[i as int].gpio,
        ensures
            final(self).wf(),
            final(self).spec_inputs() == old(self).spec_inputs().update(i as int, input),
            final(self).spec_mappings() == old(self).spec_mappings(),
            final(self).spec_double_click_interval_ms() == old(self).spec_double_click_interval_ms(),
            final(self).spec_long_press_threshold_ms() == old(self).spec_long_press_threshold_ms(),
    {
        proof {
            use_type_invariant(&*self);
        }
        let mut other = InputController {
            mappings: self.mappings,
            double_click_interval_ms: self.double_click_interval_ms,
            long_press_threshold_ms: self.long_press_threshold_ms,
            inputs: Vec::new(),
        };
        std::mem::swap(self, &mut other);
        proof {
            use_type_invariant(&other);
        }
        let InputController { mappings, double_click_interval_ms, long_press_threshold_ms, mut inputs } =
            other;
        let ghost before = inputs@;
        inputs.set(i, input);
        proof {
            assert forall|a: int, b: int|
                0 <= a < b < inputs@.len() implies inputs@[a].gpio != inputs@[b].gpio by {
                assert(inputs@[a].gpio == before[a].gpio);
                assert(inputs@[b].gpio == before[b].gpio);
            }
        }
        *self = InputController { mappings, double_click_interval_ms, long_press_threshold_ms, inputs };
        proof {
            use_type_invariant(&*self);
        }
    }

    /// Samples the starting level of a GPIO without reporting events.
    pub fn initialize(&mut self, gpio: u8, raw_high: bool, now_ms: u64) -> (r: Result<
        (),
        InputProcessError,
    >)
        ensures
            final(self).wf(),
            final(self).spec_mappings() == old(self).spec_mappings(),
            final(self).spec_double_click_interval_ms() == old(self).spec_double_click_interval_ms(),
            final(self).spec_long_press_threshold_ms() == old(self).spec_long_press_threshold_ms(),
            (forall|i: int|
                0 <= i < old(self).spec_inputs().len() ==> old(self).spec_inputs()[i].gpio != gpio)
                ==> r == Err::<(), InputProcessError>(InputProcessError::UnknownGpio(gpio))
                && final(self).spec_inputs() == old(self).spec_inputs(),
            r == Err::<(), InputProcessError>(InputProcessError::UnknownGpio(gpio)) <==> forall|i: int|
                0 <= i < old(self).spec_inputs().len() ==> old(self).spec_inputs()[i].gpio != gpio,
            forall|i: int|
                0 <= i < old(self).spec_inputs().len() && old(self).spec_inputs()[i].gpio == gpio
                    ==> {
                    let c = old(self).spec_inputs()[i];
                    &&& r is Ok
                    &&& final(self).spec_inputs() == old(self).spec_inputs().update(
                        i,
                        RuntimeInput {
                            detector: initialized_detector(
                                spec_active(c.active_high, raw_high),
                                now_ms,
                            ),
                            ..c
                        },
                    )
                },
    {
        proof {
            use_type_invariant(&*self);
        }
        match self.find_channel(gpio) {
            None => Err(InputProcessError::UnknownGpio(gpio)),
            Some(i) => {
                let mut input = self.inputs[i];
                let active = if input.active_high {
                    raw_high
                } else {
                    !raw_high
                };
                input.detector.initialize(active, now_ms);
                self.replace_input(i, input);
                Ok(())
            },
        }
    }

    /// Processes one GPIO sample: the gestures detected on it and the Action
    /// IDs of the enabled mappings for those gestures.
    #[verifier::loop_isolation(false)]
    pub fn update(&mut self, gpio: u8, raw_high: bool, now_ms: u64) -> (r: Result<
        InputSampleResult,
        InputProcessError,
    >)
        ensures
            final(self).wf(),
            final(self).spec_mappings() == old(self).spec_mappings(),
            final(self).spec_double_click_interval_ms() == old(self).spec_double_click_interval_ms(),
            final(self).spec_long_press_threshold_ms() == old(self).spec_long_press_threshold_ms(),
            (forall|i: int|
                0 <= i < old(self).spec_inputs().len() ==> old(self).spec_inputs()[i].gpio != gpio)
                ==> r == Err::<InputSampleResult, InputProcessError>(
                InputProcessError::UnknownGpio(gpio),
            ) && final(self).spec_inputs() == old(self).spec_inputs(),
            r == Err::<InputSampleResult, InputProcessError>(InputProcessError::UnknownGpio(gpio))
                <==> forall|i: int|
                0 <= i < old(self).spec_inputs().len() ==> old(self).spec_inputs()[i].gpio != gpio,
            forall|i: int|
                0 <= i < old(self).spec_inputs().len() && old(self).spec_inputs()[i].gpio == gpio
                    ==> {
                    let c = old(self).spec_inputs()[i];
                    let (d, events) = gesture_step(
                        c.detector,
                        spec_active(c.active_high, raw_high),
                        now_ms,
                        c.debounce_ms,
                        old(self).spec_double_click_interval_ms(),
                        old(self).spec_long_press_threshold_ms(),
                    );
                    let actions = actions_for(old(self).spec_mappings(), gpio, events);
                    &&& final(self).spec_inputs() == old(self).spec_inputs().update(
                        i,
                        RuntimeInput { detector: d, ..c },
                    )
                    &&& match r {
                        Ok(res) => {
                            &&& res.input_events@ == detected_on(gpio, events)
                            &&& res.actions@ == actions
                            &&& actions.len() <= MAX_EVENTS_PER_SAMPLE
                        },
                        Err(e) => e == InputProcessError::TooManyEvents && actions.len()
                            > MAX_EVENTS_PER_SAMPLE,
                    }
                },
    {
        proof {
            use_type_invariant(&*self);
        }
        let i = match self.find_channel(gpio) {
            None => {
                return Err(InputProcessError::UnknownGpio(gpio));
            },
            Some(i) => i,
        };
        let ghost c = self.inputs@[i as int];
        let mut input = self.inputs[i];
        let active = if input.active_high {
            raw_high
        } else {
            !raw_high
        };
        let mut detected: Vec<InputEvent> = Vec::new();
        input.detector.update(
            active,
            now_ms,
            input.debounce_ms,
            self.double_click_interval_ms,
            self.long_press_threshold_ms,
            &mut detected,
        );
        self.replace_input(i, input);
        let ghost events = gesture_step(
            c.detector,
            active,
            now_ms,
            c.debounce_ms,
            self.double_click_interval_ms,
            self.long_press_threshold_ms,
        ).1;
        proof {
            law_gesture_step_reports_at_most_four_events(
                c.detector,
                active,
                now_ms,
                c.debounce_ms,
                self.double_click_interval_ms,
                self.long_press_threshold_ms,
            );
            lemma_extend_bounded_fits(Seq::empty(), events);
            assert(Seq::<InputEvent>::empty() + events =~= events);
        }
        assert(detected@ == events);
        assert(detected@.len() <= 4);

        proof {
            assert forall|j: int|
                0 <= j < old(self).spec_inputs().len() && old(self).spec_inputs()[j].gpio == gpio
                implies j == i as int by {
                if j != i as int {
                    assert(old(self).spec_inputs()[i as int].gpio == gpio);
                }
            }
        }
        resolve_events(self.mappings, gpio, &detected)
    }
}

/// Tags detected events with their GPIO and looks up the Action IDs that the
/// enabled mappings assign to them.
fn resolve_events(mappings: &[InputMapping], gpio: u8, detected: &Vec<InputEvent>) -> (r: Result<
    InputSampleResult,
    InputProcessError,
>)
    requires
        detected@.len() <= MAX_EVENTS_PER_SAMPLE,
    ensures
        match r {
            Ok(res) => {
                &&& res.input_events@ == detected_on(gpio, detected@)
                &&& res.actions@ == actions_for(mappings@, gpio, detected@)
                &&& actions_for(mappings@, gpio, detected@).len() <= MAX_EVENTS_PER_SAMPLE
            },
            Err(e) => e == InputProcessError::TooManyEvents && actions_for(mappings@, gpio, detected@).len()
                > MAX_EVENTS_PER_SAMPLE,
        },
{
    let ghost events = detected@;
    let ghost m = mappings@;
    let mut input_events: Vec<DetectedInputEvent> = Vec::new();
    let mut actions: Vec<TriggeredAction> = Vec::new();
    let mut k: usize = 0;
    while k < detected.len()
        invariant
            k <= events.len(),
            detected@ == events,
            events.len() <= MAX_EVENTS_PER_SAMPLE,
            m == mappings@,
            input_events@ == detected_on(gpio, events.take(k as int)),
            actions@ == actions_for(m, gpio, events.take(k as int)),
            actions@.len() <= MAX_EVENTS_PER_SAMPLE,
        decreases events.len() - k,
    {
        let event = detected[k];
        input_events.push(DetectedInputEvent { gpio, input_event: event });
        let mut j: usize = 0;
        while j < mappings.len()
            invariant
                j <= m.len(),
                m == mappings@,
                detected@ == events,
                k < events.len(),
                event == events[k as int],
                actions@ == actions_for(m, gpio, events.take(k as int)) + matching_actions(
                    m.take(j as int),
                    gpio,
                    event,
                ),
                actions@.len() <= MAX_EVENTS_PER_SAMPLE,
            decreases m.len() - j,
        {
            let mapping = mappings[j];
            assert(m.take(j as int + 1).drop_last() =~= m.take(j as int));
            assert(m.take(j as int + 1).last() == mapping);
            if mapping.enabled && mapping.gpio == gpio && mapping.input_event == event {
                if actions.len() >= MAX_EVENTS_PER_SAMPLE {
                    proof {
                        assert(events.take(k as int + 1).drop_last() =~= events.take(k as int));
                        assert(events.take(k as int + 1).last() == event);
                        assert(actions_for(m, gpio, events.take(k as int + 1)) == actions_for(
                            m,
                            gpio,
                            events.take(k as int),
                        ) + matching_actions(m, gpio, event));
                        assert(matching_actions(m.take(j as int + 1), gpio, event).len()
                            == matching_actions(m.take(j as int), gpio, event).len() + 1);
                        lemma_matching_prefix_len(m, gpio, event, j as int + 1);
                        lemma_actions_prefix_len(m, gpio, events, k as int + 1);
                    }
                    return Err(InputProcessError::TooManyEvents);
                }
                actions.push(TriggeredAction { action_id: mapping.action_id });
            }
            j = j + 1;
        }
        proof {
            assert(m.take(m.len() as int) =~= m);
            assert(events.take(k as int + 1).drop_last() =~= events.take(k as int));
            assert(events.take(k as int + 1).last() == event);
            assert(detected_on(gpio, events.take(k as int + 1)) =~= detected_on(
                gpio,
                events.take(k as int),
            ).push(DetectedInputEvent { gpio, input_event: event }));
        }
        k = k + 1;
    }
    assert(events.take(events.len() as int) =~= events);
    Ok(InputSampleResult { input_events, actions })
}


} // verus!
