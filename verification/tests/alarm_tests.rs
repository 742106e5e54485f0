use yeetlight::alarm::{AlarmState, DIMMING_ITERATIONS, DIMMING_STEP_MS, DIMMING_STEP_PERCENT,
    DimStep, dimming_step};
use yeetlight::codec::parse_u16;
use yeetlight::handlers::{AppState, BulbAction, ToggleDecision, alarm_capture,
    brightness_request, color_request, power_off_plan, power_on_plan, temperature_request,
    toggle_decision, BrightnessParams, ColorParams, TemperatureParams};
use yeetlight::params::{Brightness, Color, Effect, Percentage, Temperature};

#[test]
fn dimming_loop_completes_after_fifty_on_reports() {
    let mut state = AlarmState::Running { iterations_done: 0 };
    let mut steps: u32 = 0;
    while let AlarmState::Running { .. } = state {
        let (next, action) = dimming_step(state, true);
        assert_eq!(
            action,
            Some(DimStep { step: Percentage(DIMMING_STEP_PERCENT), duration_ms: DIMMING_STEP_MS })
        );
        steps += 1;
        state = next;
        assert!(steps <= DIMMING_ITERATIONS as u32);
    }
    assert_eq!(state, AlarmState::Completed);
    assert_eq!(steps, 50);
}

#[test]
fn dimming_loop_aborts_on_first_off_report() {
    let mut state = AlarmState::Running { iterations_done: 0 };
    // Three good iterations, then the bulb reports it is off.
    for _ in 0..3 {
        let (next, action) = dimming_step(state, true);
        assert!(action.is_some());
        state = next;
    }
    let (next, action) = dimming_step(state, false);
    assert_eq!(next, AlarmState::Aborted);
    // The abort requests nothing: no step and no restoration.
    assert!(action.is_none());
}

#[test]
fn dimming_step_parameters_are_fixed() {
    assert_eq!(DIMMING_STEP_PERCENT, 2);
    assert_eq!(DIMMING_STEP_MS, 60000);
    assert_eq!(DIMMING_ITERATIONS, 50);
}

#[test]
fn power_off_restores_saved_state_before_power_command() {
    let mut state = AppState::default();
    state.set_saved_state(Some((Brightness(80), Temperature(4700))));
    let (_, actions) = power_off_plan(&mut state);
    assert_eq!(
        actions,
        vec![
            BulbAction::SetBrightness { level: Brightness(80), effect: Effect::Smooth(500) },
            BulbAction::SetTemperature { kelvin: Temperature(4700), effect: Effect::Smooth(500) },
            BulbAction::SetPower { on: false, effect: Effect::Smooth(500) },
        ]
    );
    assert!(state.get_saved_state().is_none());
}

#[test]
fn second_power_off_restores_nothing() {
    let mut state = AppState::default();
    state.set_saved_state(Some((Brightness(80), Temperature(4700))));
    let (_, first) = power_off_plan(&mut state);
    assert_eq!(first.len(), 3);
    let (_, second) = power_off_plan(&mut state);
    assert_eq!(
        second,
        vec![BulbAction::SetPower { on: false, effect: Effect::Smooth(500) }]
    );
}

#[test]
fn power_off_cancels_running_alarm() {
    let mut state = AppState::default();
    let displaced = state.replace_alarm_task(Some(11));
    assert!(displaced.is_none());
    let (cancelled, _) = power_off_plan(&mut state);
    assert_eq!(cancelled, Some(11));
    assert!(state.alarm_task.is_none());
}

#[test]
fn second_alarm_cancels_first() {
    let mut state = AppState::default();
    let displaced = state.replace_alarm_task(Some(1));
    assert!(displaced.is_none());
    // A second alarm registers its own task; the first one's handle
    // comes back for cancellation and only one handle is retained.
    let displaced = state.replace_alarm_task(Some(2));
    assert_eq!(displaced, Some(1));
    assert_eq!(state.alarm_task, Some(2));
}

#[test]
fn alarm_capture_overwrites_snapshot_and_dims_suddenly() {
    let mut state = AppState::default();
    state.set_saved_state(Some((Brightness(10), Temperature(2000))));
    let actions = alarm_capture(&mut state, 80, 4700);
    assert_eq!(state.get_saved_state(), Some((Brightness(80), Temperature(4700))));
    assert_eq!(
        actions,
        vec![
            BulbAction::SetBrightness { level: Brightness(1), effect: Effect::Sudden },
            BulbAction::SetTemperature { kelvin: Temperature(6500), effect: Effect::Sudden },
        ]
    );
}

#[test]
fn power_on_plan_is_single_smooth_command() {
    assert_eq!(
        power_on_plan(),
        vec![BulbAction::SetPower { on: true, effect: Effect::Smooth(500) }]
    );
}

#[test]
fn toggle_decision_follows_reported_state() {
    assert_eq!(toggle_decision("on"), ToggleDecision::TurnOff);
    assert_eq!(toggle_decision("off"), ToggleDecision::TurnOn);
    assert_eq!(toggle_decision("dim"), ToggleDecision::Unexpected);
    assert_eq!(toggle_decision(""), ToggleDecision::Unexpected);
}

#[test]
fn request_validation_happens_before_any_network() {
    let ok = brightness_request(&BrightnessParams { bulb: "h".to_string(), brightness: 50 });
    assert_eq!(ok.unwrap(), (Brightness(50), Effect::Smooth(500)));
    let err = brightness_request(&BrightnessParams { bulb: "h".to_string(), brightness: 0 });
    assert!(err.is_err());

    let ok = temperature_request(&TemperatureParams { bulb: "h".to_string(), temperature: 1700 });
    assert_eq!(ok.unwrap(), (Temperature(1700), Effect::Smooth(500)));
    let err = temperature_request(&TemperatureParams { bulb: "h".to_string(), temperature: 1 });
    assert!(err.is_err());

    let ok = color_request(&ColorParams { bulb: "h".to_string(), color: "00ff00".to_string() });
    assert_eq!(ok.unwrap(), (Color(0x00ff00), Effect::Smooth(500)));
    let err = color_request(&ColorParams { bulb: "h".to_string(), color: "short".to_string() });
    assert!(err.is_err());
}

#[test]
fn parse_u16_reads_reported_levels() {
    assert_eq!(parse_u16("80"), Some(80));
    assert_eq!(parse_u16("0080"), Some(80));
    assert_eq!(parse_u16("65535"), Some(65535));
    assert_eq!(parse_u16("65536"), None);
    assert_eq!(parse_u16(""), None);
    assert_eq!(parse_u16("8a"), None);
    assert_eq!(parse_u16("-1"), None);
}
