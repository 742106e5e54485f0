//! The wake-up alarm's dimming loop as a state machine.
//!
//! A started alarm captures the bulb's levels, dims it to minimum
//! brightness and maximum temperature instantaneously, and then
//! brightens it step by step: each iteration queries the live power
//! state, aborts if the bulb is no longer on, and otherwise requests a
//! small relative brightness increase and suspends for the step
//! duration. The task driving the loop performs the I/O and the
//! suspension; every decision is taken here, so the loop's shape — at
//! most fifty steps, abort on the first off report, no restoration by
//! the task itself — is proved, not just run.

use vstd::prelude::*;

use crate::params::Percentage;

verus! {

/// Number of dimming iterations in a full run.
pub const DIMMING_ITERATIONS: u8 = 50;

/// Relative brightness increase of one dimming step, in percentage
/// points.
pub const DIMMING_STEP_PERCENT: i16 = 2;

/// Duration of one dimming step in milliseconds; the task suspends for
/// exactly this long after requesting the step.
pub const DIMMING_STEP_MS: u16 = 60000;

/// State of one alarm run. `Idle` is the state of a server with no
/// alarm task; a started task begins `Running` with no iterations
/// done and ends `Completed` after the full count of steps, or
/// `Aborted` the first time the bulb reports it is not on.
#[derive(Copy, Clone, PartialEq, Eq, Structural, Debug)]
pub enum AlarmState {
    Idle,
    Running { iterations_done: u8 },
    Completed,
    Aborted,
}

impl AlarmState {
    /// A running alarm has performed fewer than the full count of
    /// steps; the final step moves to `Completed` instead.
    pub open spec fn wf(self) -> bool {
        match self {
            AlarmState::Running { iterations_done } => iterations_done < 50,
            _ => true,
        }
    }
}

/// The request one dimming iteration sends when the bulb is still on:
/// a relative brightness step over the fixed duration.
#[derive(Copy, Clone, PartialEq, Eq, Structural, Debug)]
pub struct DimStep {
    pub step: Percentage,
    pub duration_ms: u16,
}

/// Successor state of one dimming iteration, given the power state the
/// bulb just reported.
pub open spec fn spec_dim_next(state: AlarmState, power_is_on: bool) -> AlarmState {
    match state {
        AlarmState::Running { iterations_done } => if !power_is_on {
            AlarmState::Aborted
        } else if iterations_done + 1 == 50 {
            AlarmState::Completed
        } else {
            AlarmState::Running { iterations_done: (iterations_done + 1) as u8 }
        },
        _ => state,
    }
}

/// One iteration of the dimming loop. On any report other than "on"
/// the alarm aborts and takes no further action — in particular it
/// issues no restoration; that belongs to whichever handler causes or
/// detects the power-off. Otherwise the bulb is asked to step
/// brightness up by the fixed amount, and the fiftieth step completes
/// the run.
pub fn dimming_step(state: AlarmState, power_is_on: bool) -> (r: (AlarmState, Option<DimStep>))
    requires
        state is Running,
        state.wf(),
    ensures
        r.0 == spec_dim_next(state, power_is_on),
        r.0.wf(),
        !power_is_on ==> r.1 is None,
        power_is_on ==> r.1 == Some(
            DimStep { step: Percentage(DIMMING_STEP_PERCENT), duration_ms: DIMMING_STEP_MS },
        ),
{
    match state {
        AlarmState::Running { iterations_done } => {
            if !power_is_on {
                (AlarmState::Aborted, None)
            } else {
                let next = if iterations_done + 1 == DIMMING_ITERATIONS {
                    AlarmState::Completed
                } else {
                    AlarmState::Running { iterations_done: iterations_done + 1 }
                };
                (
                    next,
                    Some(
                        DimStep {
                            step: Percentage(DIMMING_STEP_PERCENT),
                            duration_ms: DIMMING_STEP_MS,
                        },
                    ),
                )
            }
        },
        _ => {
            proof {
                assert(false);
            }
            (state, None)
        },
    }
}

/// Final state after the task observes the power reports `obs` in
/// order, stepping for as long as it is still running. A run whose
/// task is cancelled mid-way simply has a shorter observation
/// sequence: cancellation removes the observer, it adds no transition.
pub open spec fn alarm_run_from(state: AlarmState, obs: Seq<bool>) -> AlarmState
    decreases obs.len(),
{
    if !(state is Running) || obs.len() == 0 {
        state
    } else {
        alarm_run_from(spec_dim_next(state, obs[0]), obs.drop_first())
    }
}

/// Final state of a freshly started alarm under the power reports
/// `obs`.
pub open spec fn alarm_run(obs: Seq<bool>) -> AlarmState {
    alarm_run_from(AlarmState::Running { iterations_done: 0 }, obs)
}

/// Number of brightness steps the task requests from `state` under
/// the reports `obs`.
pub open spec fn alarm_steps_from(state: AlarmState, obs: Seq<bool>) -> int
    decreases obs.len(),
{
    if !(state is Running) || obs.len() == 0 {
        0
    } else if obs[0] {
        1 + alarm_steps_from(spec_dim_next(state, true), obs.drop_first())
    } else {
        0
    }
}

/// Number of brightness steps a freshly started alarm requests under
/// the reports `obs`.
pub open spec fn alarm_steps(obs: Seq<bool>) -> int {
    alarm_steps_from(AlarmState::Running { iterations_done: 0 }, obs)
}

proof fn lemma_steps_from_bounded(state: AlarmState, obs: Seq<bool>)
    requires
        state.wf(),
    ensures
        state is Running ==> alarm_steps_from(state, obs) <= 50 - state->iterations_done,
        !(state is Running) ==> alarm_steps_from(state, obs) == 0,
    decreases obs.len(),
{
    if state is Running && obs.len() > 0 {
        lemma_steps_from_bounded(spec_dim_next(state, obs[0]), obs.drop_first());
    }
}

/// However the bulb answers, the dimming loop performs at most fifty
/// brightness steps.
pub proof fn lemma_dimming_bounded(obs: Seq<bool>)
    ensures
        alarm_steps(obs) <= 50,
{
    lemma_steps_from_bounded(AlarmState::Running { iterations_done: 0 }, obs);
}

proof fn lemma_run_aborts(i: int, obs: Seq<bool>, k: int)
    requires
        0 <= i,
        0 <= k < obs.len(),
        i + k < 50,
        !obs[k],
        forall|j: int| 0 <= j < k ==> obs[j],
    ensures
        alarm_run_from(AlarmState::Running { iterations_done: i as u8 }, obs)
            == AlarmState::Aborted,
        alarm_steps_from(AlarmState::Running { iterations_done: i as u8 }, obs) == k,
    decreases k,
{
    let state = AlarmState::Running { iterations_done: i as u8 };
    let rest = obs.drop_first();
    if k == 0 {
        assert(spec_dim_next(state, obs[0]) == AlarmState::Aborted);
        assert(alarm_run_from(state, obs) == alarm_run_from(AlarmState::Aborted, rest));
        assert(alarm_run_from(AlarmState::Aborted, rest) == AlarmState::Aborted);
    } else {
        assert(obs[0]);
        assert(!rest[k - 1]);
        assert(forall|j: int| 0 <= j < k - 1 ==> rest[j]);
        assert(spec_dim_next(state, true) == (AlarmState::Running {
            iterations_done: (i + 1) as u8,
        }));
        assert(alarm_run_from(state, obs) == alarm_run_from(spec_dim_next(state, true), rest));
        assert(alarm_steps_from(state, obs) == 1 + alarm_steps_from(
            spec_dim_next(state, true),
            rest,
        ));
        lemma_run_aborts(i + 1, rest, k - 1);
    }
}

/// The first time a power-state query reports anything but "on", the
/// run ends `Aborted`: exactly the steps before that report were
/// performed, and the abort itself requests nothing — no further step
/// and no restoration.
pub proof fn lemma_dimming_aborts_on_first_off(obs: Seq<bool>, k: int)
    requires
        0 <= k < obs.len(),
        k < 50,
        !obs[k],
        forall|j: int| 0 <= j < k ==> obs[j],
    ensures
        alarm_run(obs) == AlarmState::Aborted,
        alarm_steps(obs) == k,
{
    lemma_run_aborts(0, obs, k);
}

proof fn lemma_run_completes(i: int, obs: Seq<bool>)
    requires
        0 <= i < 50,
        obs.len() >= 50 - i,
        forall|j: int| 0 <= j < 50 - i ==> obs[j],
    ensures
        alarm_run_from(AlarmState::Running { iterations_done: i as u8 }, obs)
            == AlarmState::Completed,
        alarm_steps_from(AlarmState::Running { iterations_done: i as u8 }, obs) == 50 - i,
    decreases obs.len(),
{
    let state = AlarmState::Running { iterations_done: i as u8 };
    assert(obs[0]);
    let rest = obs.drop_first();
    assert(alarm_run_from(state, obs) == alarm_run_from(spec_dim_next(state, true), rest));
    assert(alarm_steps_from(state, obs) == 1 + alarm_steps_from(
        spec_dim_next(state, true),
        rest,
    ));
    if i + 1 == 50 {
        assert(spec_dim_next(state, true) == AlarmState::Completed);
        assert(alarm_run_from(AlarmState::Completed, rest) == AlarmState::Completed);
        assert(alarm_steps_from(AlarmState::Completed, rest) == 0);
    } else {
        assert(spec_dim_next(state, true) == (AlarmState::Running {
            iterations_done: (i + 1) as u8,
        }));
        assert(forall|j: int| 0 <= j < 50 - (i + 1) ==> rest[j]);
        lemma_run_completes(i + 1, rest);
    }
}

/// Fifty consecutive "on" reports complete the run: exactly fifty
/// steps are performed and the state ends `Completed`.
pub proof fn lemma_dimming_completes(obs: Seq<bool>)
    requires
        obs.len() >= 50,
        forall|j: int| 0 <= j < 50 ==> obs[j],
    ensures
        alarm_run(obs) == AlarmState::Completed,
        alarm_steps(obs) == 50,
{
    lemma_run_completes(0, obs);
}

proof fn lemma_completed_needs(i: int, obs: Seq<bool>)
    requires
        0 <= i < 50,
    ensures
        alarm_run_from(AlarmState::Running { iterations_done: i as u8 }, obs)
            == AlarmState::Completed ==> obs.len() >= 50 - i,
    decreases obs.len(),
{
    let state = AlarmState::Running { iterations_done: i as u8 };
    if obs.len() == 0 {
        assert(alarm_run_from(state, obs) == state);
    } else {
        let rest = obs.drop_first();
        assert(alarm_run_from(state, obs) == alarm_run_from(spec_dim_next(state, obs[0]), rest));
        if !obs[0] {
            assert(alarm_run_from(AlarmState::Aborted, rest) == AlarmState::Aborted);
        } else if i + 1 == 50 {
        } else {
            assert(spec_dim_next(state, true) == (AlarmState::Running {
                iterations_done: (i + 1) as u8,
            }));
            lemma_completed_needs(i + 1, rest);
        }
    }
}

/// Completion certifies a full run: a task that stops observing — in
/// particular one whose handle was cancelled when a second alarm
/// replaced it — before fifty reports never ends `Completed`. Of two
/// overlapping alarms, only the one left registered can complete its
/// own fifty-iteration run.
pub proof fn lemma_cancelled_run_never_completes(obs: Seq<bool>)
    requires
        obs.len() < 50,
    ensures
        alarm_run(obs) != AlarmState::Completed,
{
    lemma_completed_needs(0, obs);
}

} // verus!
