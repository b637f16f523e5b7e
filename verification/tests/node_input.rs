use uchi_pulse::common::udp::InputEvent;
use uchi_pulse::node::config::{GpioInputConfig, InputMapping};
use uchi_pulse::node::input::{
    DetectedInputEvent, InputConfig, InputConfigError, InputController, InputProcessError, InputSampleResult,
    TriggeredAction,
};

const GPIO: u8 = 5;

const GPIO_INPUTS: &[GpioInputConfig] = &[GpioInputConfig { gpio: GPIO, active_high: true, debounce_ms: 30 }];

fn controller<'a>(mappings: &'a [InputMapping]) -> InputController<'a> {
    InputController::new(InputConfig {
        gpio_inputs: GPIO_INPUTS,
        mappings,
        double_click_interval_ms: 400,
        long_press_threshold_ms: 1_000,
    })
    .unwrap()
}

fn sample(controller: &mut InputController<'_>, active: bool, now_ms: u64) -> InputSampleResult {
    controller.update(GPIO, active, now_ms).unwrap()
}

fn initialize(controller: &mut InputController<'_>) {
    controller.initialize(GPIO, false, 0).unwrap();
}

fn mapping(input_event: InputEvent, action_id: u32, enabled: bool) -> InputMapping {
    InputMapping { gpio: GPIO, input_event, action_id, enabled }
}

fn detected(input_event: InputEvent) -> DetectedInputEvent {
    DetectedInputEvent { gpio: GPIO, input_event }
}

#[test]
fn stable_edges_emit_once_after_debounce() {
    let mappings = [mapping(InputEvent::OffToOn, 10, true), mapping(InputEvent::OnToOff, 11, true)];
    let mut controller = controller(&mappings);
    initialize(&mut controller);
    assert!(sample(&mut controller, true, 1).input_events.is_empty());
    assert_eq!(sample(&mut controller, true, 31).input_events.as_slice(), &[detected(InputEvent::OffToOn)]);
    assert!(sample(&mut controller, true, 100).input_events.is_empty());
    assert_eq!(sample(&mut controller, false, 101).input_events.as_slice(), &[]);
    assert_eq!(sample(&mut controller, false, 131).input_events.as_slice(), &[detected(InputEvent::OnToOff)]);
    assert!(sample(&mut controller, false, 200).input_events.is_empty());
}

#[test]
fn debounce_rejects_chattering() {
    let mappings = [mapping(InputEvent::OffToOn, 10, true)];
    let mut controller = controller(&mappings);
    initialize(&mut controller);
    for (active, now_ms) in [(true, 1), (false, 10), (true, 20), (false, 29), (false, 50)] {
        assert!(sample(&mut controller, active, now_ms).input_events.is_empty());
    }
}

#[test]
fn short_press_emits_click_only_after_double_click_window() {
    let mappings = [mapping(InputEvent::Click, 10, true)];
    let mut controller = controller(&mappings);
    initialize(&mut controller);
    sample(&mut controller, true, 1);
    sample(&mut controller, true, 31);
    sample(&mut controller, false, 32);
    sample(&mut controller, false, 62);
    assert!(sample(&mut controller, false, 462).input_events.is_empty());
    let result = sample(&mut controller, false, 463);
    assert_eq!(result.input_events.as_slice(), &[detected(InputEvent::Click)]);
    assert_eq!(result.actions.as_slice(), &[TriggeredAction { action_id: 10 }]);
}

#[test]
fn two_short_presses_emit_double_click_without_clicks() {
    let mappings = [mapping(InputEvent::Click, 10, true), mapping(InputEvent::DoubleClick, 20, true)];
    let mut controller = controller(&mappings);
    initialize(&mut controller);
    sample(&mut controller, true, 1);
    sample(&mut controller, true, 31);
    sample(&mut controller, false, 32);
    sample(&mut controller, false, 62);
    sample(&mut controller, true, 100);
    sample(&mut controller, true, 130);
    sample(&mut controller, false, 131);
    let result = sample(&mut controller, false, 161);
    assert_eq!(
        result.input_events.as_slice(),
        &[detected(InputEvent::OnToOff), detected(InputEvent::DoubleClick)]
    );
    assert_eq!(result.actions.as_slice(), &[TriggeredAction { action_id: 20 }]);
    assert!(sample(&mut controller, false, 500).input_events.is_empty());
}

#[test]
fn a_second_press_keeps_double_click_pending_while_held() {
    let mappings = [mapping(InputEvent::Click, 10, true), mapping(InputEvent::DoubleClick, 20, true)];
    let mut controller = controller(&mappings);
    initialize(&mut controller);
    sample(&mut controller, true, 1);
    sample(&mut controller, true, 31);
    sample(&mut controller, false, 32);
    sample(&mut controller, false, 62);
    sample(&mut controller, true, 100);
    sample(&mut controller, true, 130);
    assert!(sample(&mut controller, true, 600).input_events.is_empty());
    sample(&mut controller, false, 601);
    let result = sample(&mut controller, false, 631);
    assert_eq!(
        result.input_events.as_slice(),
        &[detected(InputEvent::OnToOff), detected(InputEvent::DoubleClick)]
    );
    assert_eq!(result.actions.as_slice(), &[TriggeredAction { action_id: 20 }]);
}

#[test]
fn second_press_is_measured_from_physical_start_before_debounce() {
    let mappings = [mapping(InputEvent::DoubleClick, 20, true)];
    let mut controller = controller(&mappings);
    initialize(&mut controller);
    sample(&mut controller, true, 1);
    sample(&mut controller, true, 31);
    sample(&mut controller, false, 32);
    sample(&mut controller, false, 62);
    sample(&mut controller, true, 400);
    sample(&mut controller, true, 430);
    sample(&mut controller, false, 431);
    let result = sample(&mut controller, false, 461);
    assert!(result.input_events.contains(&detected(InputEvent::DoubleClick)));
    assert_eq!(result.actions.as_slice(), &[TriggeredAction { action_id: 20 }]);
}

#[test]
fn long_press_emits_once_and_never_becomes_click() {
    let mappings = [mapping(InputEvent::LongPress, 30, true), mapping(InputEvent::Click, 10, true)];
    let mut controller = controller(&mappings);
    initialize(&mut controller);
    sample(&mut controller, true, 1);
    sample(&mut controller, true, 31);
    let result = sample(&mut controller, true, 1_031);
    assert_eq!(result.input_events.as_slice(), &[detected(InputEvent::LongPress)]);
    assert_eq!(result.actions.as_slice(), &[TriggeredAction { action_id: 30 }]);
    assert!(sample(&mut controller, true, 2_000).input_events.is_empty());
    assert!(sample(&mut controller, false, 2_001).input_events.is_empty());
    assert_eq!(sample(&mut controller, false, 2_031).input_events.as_slice(), &[detected(InputEvent::OnToOff)]);
    assert!(sample(&mut controller, false, 2_100).input_events.is_empty());
}

#[test]
fn configured_timing_is_used_and_can_be_changed() {
    let mappings = [mapping(InputEvent::LongPress, 30, true)];
    let mut controller = controller(&mappings);
    assert_eq!(controller.gesture_timing(), (400, 1_000));
    controller.set_gesture_timing(100, 50);
    assert_eq!(controller.gesture_timing(), (100, 50));
    initialize(&mut controller);
    sample(&mut controller, true, 1);
    sample(&mut controller, true, 31);
    assert!(sample(&mut controller, true, 81).input_events.contains(&detected(InputEvent::LongPress)));
}

#[test]
fn missing_or_disabled_mapping_does_not_emit_action() {
    let mappings = [mapping(InputEvent::Click, 10, false)];
    let mut controller = controller(&mappings);
    initialize(&mut controller);
    sample(&mut controller, true, 1);
    sample(&mut controller, true, 31);
    sample(&mut controller, false, 32);
    sample(&mut controller, false, 62);
    let result = sample(&mut controller, false, 463);
    assert_eq!(result.input_events.as_slice(), &[detected(InputEvent::Click)]);
    assert!(result.actions.is_empty());
}

#[test]
fn multiple_gpios_and_events_are_resolved_independently() {
    let gpio_inputs = [
        GpioInputConfig { gpio: 5, active_high: true, debounce_ms: 0 },
        GpioInputConfig { gpio: 6, active_high: true, debounce_ms: 0 },
    ];
    let mappings = [
        InputMapping { gpio: 5, input_event: InputEvent::OffToOn, action_id: 50, enabled: true },
        InputMapping { gpio: 6, input_event: InputEvent::OffToOn, action_id: 60, enabled: true },
    ];
    let mut controller = InputController::new(InputConfig {
        gpio_inputs: &gpio_inputs,
        mappings: &mappings,
        double_click_interval_ms: 400,
        long_press_threshold_ms: 1_000,
    })
    .unwrap();
    controller.initialize(5, false, 0).unwrap();
    controller.initialize(6, false, 0).unwrap();
    controller.update(5, true, 1).unwrap();
    controller.update(6, true, 2).unwrap();
    assert_eq!(controller.update(5, true, 3).unwrap().actions.as_slice(), &[TriggeredAction { action_id: 50 }]);
    assert_eq!(controller.update(6, true, 4).unwrap().actions.as_slice(), &[TriggeredAction { action_id: 60 }]);
}

#[test]
fn active_low_inputs_are_inverted() {
    let gpio_inputs = [GpioInputConfig { gpio: 7, active_high: false, debounce_ms: 0 }];
    let mappings = [InputMapping { gpio: 7, input_event: InputEvent::OffToOn, action_id: 70, enabled: true }];
    let mut controller = InputController::new(InputConfig {
        gpio_inputs: &gpio_inputs,
        mappings: &mappings,
        double_click_interval_ms: 400,
        long_press_threshold_ms: 1_000,
    })
    .unwrap();
    controller.initialize(7, true, 0).unwrap();
    controller.update(7, false, 1).unwrap();
    assert_eq!(controller.update(7, false, 2).unwrap().actions.as_slice(), &[TriggeredAction { action_id: 70 }]);
}

#[test]
fn unknown_gpio_and_bad_configurations_are_reported() {
    let mappings = [mapping(InputEvent::Click, 10, true)];
    let mut controller = controller(&mappings);
    assert_eq!(controller.update(9, true, 1), Err(InputProcessError::UnknownGpio(9)));
    assert_eq!(controller.initialize(9, true, 1), Err(InputProcessError::UnknownGpio(9)));
    assert!(controller.has_gpio(GPIO));
    assert!(!controller.has_gpio(9));

    let duplicate_inputs = [
        GpioInputConfig { gpio: 5, active_high: true, debounce_ms: 0 },
        GpioInputConfig { gpio: 5, active_high: true, debounce_ms: 0 },
    ];
    let result = InputController::new(InputConfig {
        gpio_inputs: &duplicate_inputs,
        mappings: &[],
        double_click_interval_ms: 400,
        long_press_threshold_ms: 1_000,
    });
    assert_eq!(result.err(), Some(InputConfigError::DuplicateGpio(5)));

    let stray = [InputMapping { gpio: 8, input_event: InputEvent::Click, action_id: 1, enabled: true }];
    let result = InputController::new(InputConfig {
        gpio_inputs: GPIO_INPUTS,
        mappings: &stray,
        double_click_interval_ms: 400,
        long_press_threshold_ms: 1_000,
    });
    assert_eq!(result.err(), Some(InputConfigError::MappingReferencesUnknownGpio(8)));

    let twice = [mapping(InputEvent::Click, 1, true), mapping(InputEvent::Click, 2, true)];
    let result = InputController::new(InputConfig {
        gpio_inputs: GPIO_INPUTS,
        mappings: &twice,
        double_click_interval_ms: 400,
        long_press_threshold_ms: 1_000,
    });
    assert_eq!(result.err(), Some(InputConfigError::DuplicateMapping { gpio: GPIO, input_event: InputEvent::Click }));
}
