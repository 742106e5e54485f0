//! The decision content of the server's request handlers.
//!
//! Each handler is glue around one of these functions: it parses the
//! request, calls the decision here, performs the I/O the returned
//! plan asks for, and serializes the outcome. The shared mutable state
//! — the saved brightness/temperature snapshot and the handle of the
//! running alarm task — is modelled by [`AppState`]; the surrounding
//! server wraps one such value in a mutex and applies these methods
//! under the lock.

use vstd::prelude::*;
use vstd::string::*;

use crate::codec::str_eq;
use crate::params::{Brightness, Color, ColorError, Effect, RangeError, Temperature,
    all_hex_digits, hex_value};

verus! {

/// Duration of the smooth ramp every handler-issued change uses, in
/// milliseconds.
pub const HANDLER_RAMP_MS: u16 = 500;

/// Process-wide mutable state of the server: the snapshot an alarm
/// captured, consumed by the next power-off, and the cancellation
/// handle of the single running alarm task, here an opaque token the
/// caller maps to its task handle. Both are absent at startup. The
/// alarm handle is deliberately process-wide, not keyed by bulb: two
/// bulbs' alarms on one server cancel each other, as documented.
#[derive(Clone, Debug)]
pub struct AppState {
    pub saved_state: Option<(Brightness, Temperature)>,
    pub alarm_task: Option<u64>,
}

impl Default for AppState {
    /// The state of a freshly started server: nothing saved, no task.
    fn default() -> (r: Self)
        ensures
            r.saved_state is None,
            r.alarm_task is None,
    {
        AppState { saved_state: None, alarm_task: None }
    }
}

impl AppState {
    /// Reads the snapshot without consuming it.
    pub fn get_saved_state(&self) -> (r: Option<(Brightness, Temperature)>)
        ensures
            r == self.saved_state,
    {
        self.saved_state
    }

    /// Overwrites the snapshot; any prior value is dropped, not merged.
    pub fn set_saved_state(&mut self, value: Option<(Brightness, Temperature)>)
        ensures
            final(self).saved_state == value,
            final(self).alarm_task == old(self).alarm_task,
    {
        self.saved_state = value;
    }

    /// Replaces the snapshot and hands the prior one back.
    pub fn swap_saved_state(&mut self, value: Option<(Brightness, Temperature)>) -> (r: Option<
        (Brightness, Temperature),
    >)
        ensures
            final(self).saved_state == value,
            final(self).alarm_task == old(self).alarm_task,
            r == old(self).saved_state,
    {
        let old_state = self.saved_state;
        self.saved_state = value;
        old_state
    }

    /// Registers `handle` as the running alarm task and returns the
    /// handle it displaces, which the caller must abort: only one
    /// alarm task is retained at a time.
    pub fn replace_alarm_task(&mut self, handle: Option<u64>) -> (displaced: Option<u64>)
        ensures
            final(self).alarm_task == handle,
            final(self).saved_state == old(self).saved_state,
            displaced == old(self).alarm_task,
    {
        let displaced = self.alarm_task;
        self.alarm_task = handle;
        displaced
    }

    /// Deregisters the running alarm task, returning its handle for
    /// the caller to abort.
    pub fn abort_alarm_task(&mut self) -> (displaced: Option<u64>)
        ensures
            final(self).alarm_task is None,
            final(self).saved_state == old(self).saved_state,
            displaced == old(self).alarm_task,
    {
        self.replace_alarm_task(None)
    }
}

/// One command a handler's plan asks the caller to send, in order.
#[derive(Copy, Clone, PartialEq, Eq, Structural, Debug)]
pub enum BulbAction {
    SetPower { on: bool, effect: Effect },
    SetBrightness { level: Brightness, effect: Effect },
    SetTemperature { kelvin: Temperature, effect: Effect },
}

/// The commands a power-on request sends.
pub open spec fn power_on_actions() -> Seq<BulbAction> {
    seq![BulbAction::SetPower { on: true, effect: Effect::Smooth(500) }]
}

/// The single smooth power-on command.
pub fn power_on_plan() -> (r: Vec<BulbAction>)
    ensures
        r@ == power_on_actions(),
{
    let mut r: Vec<BulbAction> = Vec::new();
    r.push(BulbAction::SetPower { on: true, effect: Effect::Smooth(HANDLER_RAMP_MS) });
    proof {
        assert(r@ =~= power_on_actions());
    }
    r
}

/// The commands a power-off request sends, in order: when a snapshot
/// is saved, brightness and temperature are restored — smoothly —
/// before the power-off command itself; without one, only the
/// power-off is sent.
pub open spec fn power_off_actions(saved: Option<(Brightness, Temperature)>) -> Seq<BulbAction> {
    match saved {
        Option::Some(p) => seq![
            BulbAction::SetBrightness { level: p.0, effect: Effect::Smooth(500) },
            BulbAction::SetTemperature { kelvin: p.1, effect: Effect::Smooth(500) },
            BulbAction::SetPower { on: false, effect: Effect::Smooth(500) },
        ],
        Option::None => seq![BulbAction::SetPower { on: false, effect: Effect::Smooth(500) }],
    }
}

/// Everything a power-off request does to the shared state, and the
/// commands it then sends. The running alarm's handle is taken for
/// cancellation, the snapshot is consumed — restoration failures are
/// the caller's to log and swallow; they must not block the power-off
/// command — and the returned actions are sent in order.
pub fn power_off_plan(state: &mut AppState) -> (r: (Option<u64>, Vec<BulbAction>))
    ensures
        r.0 == old(state).alarm_task,
        final(state).alarm_task is None,
        final(state).saved_state is None,
        r.1@ == power_off_actions(old(state).saved_state),
{
    let cancelled = state.abort_alarm_task();
    let saved = state.swap_saved_state(None);
    let mut actions: Vec<BulbAction> = Vec::new();
    match saved {
        Some((brightness, temperature)) => {
            actions.push(
                BulbAction::SetBrightness {
                    level: brightness,
                    effect: Effect::Smooth(HANDLER_RAMP_MS),
                },
            );
            actions.push(
                BulbAction::SetTemperature {
                    kelvin: temperature,
                    effect: Effect::Smooth(HANDLER_RAMP_MS),
                },
            );
            actions.push(BulbAction::SetPower { on: false, effect: Effect::Smooth(HANDLER_RAMP_MS) });
            proof {
                assert(actions@ =~= power_off_actions(old(state).saved_state));
            }
        },
        None => {
            actions.push(BulbAction::SetPower { on: false, effect: Effect::Smooth(HANDLER_RAMP_MS) });
            proof {
                assert(actions@ =~= power_off_actions(old(state).saved_state));
            }
        },
    }
    (cancelled, actions)
}

/// A power-off with a saved snapshot restores brightness first, then
/// temperature, and only then powers off: the restoration commands
/// stand strictly before the power-off command.
pub proof fn lemma_power_off_restores_before_power(b: Brightness, t: Temperature)
    ensures
        power_off_actions(Option::Some((b, t))) =~= seq![
            BulbAction::SetBrightness { level: b, effect: Effect::Smooth(500) },
            BulbAction::SetTemperature { kelvin: t, effect: Effect::Smooth(500) },
            BulbAction::SetPower { on: false, effect: Effect::Smooth(500) },
        ],
{
}

/// A power-off consumes the snapshot, so a consecutive power-off —
/// one issued against the state the first left behind — performs no
/// restoration: its only command is the power-off itself.
pub proof fn lemma_second_power_off_restores_nothing(s: AppState)
    requires
        s.saved_state is None,
    ensures
        power_off_actions(s.saved_state) =~= seq![
            BulbAction::SetPower { on: false, effect: Effect::Smooth(500) },
        ],
{
}

/// The commands the alarm's start sequence sends after capturing the
/// snapshot: brightness to its minimum and temperature to its
/// maximum, both instantaneous.
pub open spec fn alarm_capture_actions() -> Seq<BulbAction> {
    seq![
        BulbAction::SetBrightness { level: Brightness(1), effect: Effect::Sudden },
        BulbAction::SetTemperature { kelvin: Temperature(6500), effect: Effect::Sudden },
    ]
}

/// The state change and commands of an alarm's start, once the bulb
/// has reported its current brightness and temperature: the reported
/// levels overwrite any prior snapshot — no merge — and the bulb is
/// dimmed and cooled instantaneously before the dimming loop begins.
pub fn alarm_capture(state: &mut AppState, bright: u16, ct: u16) -> (r: Vec<BulbAction>)
    ensures
        final(state).saved_state == Some((Brightness(bright), Temperature(ct))),
        final(state).alarm_task == old(state).alarm_task,
        r@ == alarm_capture_actions(),
{
    state.set_saved_state(Some((Brightness::from(bright), Temperature::from(ct))));
    let minimum = match Brightness::new(Brightness::MIN) {
        Ok(level) => level,
        Err(_) => {
            proof {
                assert(false);
            }
            Brightness(1)
        },
    };
    let maximum = match Temperature::new(Temperature::MAX) {
        Ok(kelvin) => kelvin,
        Err(_) => {
            proof {
                assert(false);
            }
            Temperature(6500)
        },
    };
    let mut actions: Vec<BulbAction> = Vec::new();
    actions.push(BulbAction::SetBrightness { level: minimum, effect: Effect::Sudden });
    actions.push(BulbAction::SetTemperature { kelvin: maximum, effect: Effect::Sudden });
    proof {
        assert(actions@ =~= alarm_capture_actions());
    }
    actions
}

/// What the toggle handler does next, from the power state the bulb
/// reported.
#[derive(Copy, Clone, PartialEq, Eq, Structural, Debug)]
pub enum ToggleDecision {
    TurnOff,
    TurnOn,
    Unexpected,
}

/// Decides a toggle: "on" turns the bulb off, "off" turns it on, and
/// any other report is unexpected and becomes an error.
pub fn toggle_decision(power_state: &str) -> (r: ToggleDecision)
    ensures
        power_state@ == "on"@ ==> r == ToggleDecision::TurnOff,
        power_state@ == "off"@ ==> r == ToggleDecision::TurnOn,
        power_state@ != "on"@ && power_state@ != "off"@ ==> r == ToggleDecision::Unexpected,
{
    proof {
        reveal_strlit("on");
        reveal_strlit("off");
        assert("on"@ != "off"@) by {
            assert("on"@.len() == 2);
            assert("off"@.len() == 3);
        }
    }
    if str_eq(power_state, "on") {
        ToggleDecision::TurnOff
    } else if str_eq(power_state, "off") {
        ToggleDecision::TurnOn
    } else {
        ToggleDecision::Unexpected
    }
}

/// Query parameters of the power and alarm handlers.
#[derive(Clone, Debug)]
pub struct PowerParams {
    pub bulb: String,
}

/// Query parameters of the brightness handler.
#[derive(Clone, Debug)]
pub struct BrightnessParams {
    pub bulb: String,
    pub brightness: u16,
}

/// Query parameters of the temperature handler.
#[derive(Clone, Debug)]
pub struct TemperatureParams {
    pub bulb: String,
    pub temperature: u16,
}

/// Query parameters of the color handler.
#[derive(Clone, Debug)]
pub struct ColorParams {
    pub bulb: String,
    pub color: String,
}

/// Query parameters of the info handler.
#[derive(Clone, Debug)]
pub struct InfoParams {
    pub bulb: String,
}

/// Validation a brightness request performs before any network I/O:
/// the level against its range, rejected pre-flight on failure. The
/// change itself uses the handlers' smooth ramp.
pub fn brightness_request(params: &BrightnessParams) -> (r: Result<(Brightness, Effect), RangeError>)
    ensures
        (1 <= params.brightness <= 100) <==> r is Ok,
        r is Ok ==> r->Ok_0 == (Brightness(params.brightness), Effect::Smooth(500)),
        r is Err ==> r->Err_0 == (RangeError { value: params.brightness as i32, min: 1, max: 100 }),
{
    match Brightness::new(params.brightness) {
        Ok(level) => Ok((level, Effect::Smooth(HANDLER_RAMP_MS))),
        Err(e) => Err(e),
    }
}

/// Validation a temperature request performs before any network I/O.
pub fn temperature_request(params: &TemperatureParams) -> (r: Result<
    (Temperature, Effect),
    RangeError,
>)
    ensures
        (1700 <= params.temperature <= 6500) <==> r is Ok,
        r is Ok ==> r->Ok_0 == (Temperature(params.temperature), Effect::Smooth(500)),
        r is Err ==> r->Err_0 == (RangeError {
            value: params.temperature as i32,
            min: 1700,
            max: 6500,
        }),
{
    match Temperature::new(params.temperature) {
        Ok(kelvin) => Ok((kelvin, Effect::Smooth(HANDLER_RAMP_MS))),
        Err(e) => Err(e),
    }
}

/// Validation a color request performs before any network I/O: the
/// hex string must denote a 24-bit color exactly.
pub fn color_request(params: &ColorParams) -> (r: Result<(Color, Effect), ColorError>)
    ensures
        (params.color@.len() == 6 && all_hex_digits(params.color@)) <==> r is Ok,
        r is Ok ==> r->Ok_0 == (Color(hex_value(params.color@) as u32), Effect::Smooth(500)),
        r is Err ==> r->Err_0->InvalidColor_0@ == params.color@,
{
    match Color::from_hex(params.color.as_str()) {
        Ok(color) => Ok((color, Effect::Smooth(HANDLER_RAMP_MS))),
        Err(e) => Err(e),
    }
}

} // verus!
