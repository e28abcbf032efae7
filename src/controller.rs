use crate::compensator::{Compensator, CompensatorModel};
use crate::extremes::ExtremeTracker;
use crate::state_machine::{next_state, transition, State};
use vstd::prelude::*;

verus! {

/// Lower edge of the intended band, in thousandths of a degree Celsius.
pub const TARGET_LOW: i32 = 1300;

/// Upper edge of the intended band, in thousandths of a degree Celsius.
pub const TARGET_HIGH: i32 = 4400;

/// Largest correction either threshold may receive, in thousandths of a degree.
pub const MAX_COMPENSATION: i32 = 1600;

/// Wait between two readings, in milliseconds.
pub const POLL_INTERVAL_MS: u64 = 10_000;

/// Wait after a failed reading before trying again, in milliseconds.
pub const READ_RETRY_MS: u64 = 10_000;

/// Power switches after startup whose half-cycle is not learned from: the first
/// half-cycle is incomplete, so its extremes are not trusted.
pub const WARM_UP_SWITCHES: u64 = 1;

/// What the environment is to do after a reading.
#[derive(PartialEq, Eq, Structural, Clone, Copy, Debug)]
pub struct Action {
    /// The new relay setting, when the relay is to switch.
    pub switch_power: Option<bool>,
    /// Whether to record this moment as the last switch off.
    pub persist_off_transition: bool,
}

/// What a controller holds.
pub ghost struct ControllerModel {
    pub state: State,
    pub low: CompensatorModel,
    pub high: CompensatorModel,
    /// The readings of the current half-cycle.
    pub samples: Seq<int>,
    /// How many more switches pass before the controller learns from one.
    pub warm_up_left: nat,
}

impl ControllerModel {
    pub open spec fn low_threshold(self) -> int {
        self.low.threshold()
    }

    pub open spec fn high_threshold(self) -> int {
        self.high.threshold()
    }

    /// The controller after a reading of `temperature` at `now`, and the action it
    /// asks for. The reading joins the half-cycle's samples and the state machine
    /// runs on the current thresholds. When the relay switches, it is told so;
    /// past the warm-up, a switch off is recorded and teaches the high
    /// compensator the half-cycle's maximum, a switch on teaches the low
    /// compensator its minimum, and a new half-cycle begins.
    pub open spec fn step(self, temperature: int, now: i64) -> (ControllerModel, Action) {
        let samples = self.samples.push(temperature);
        let next = next_state(self.state, temperature, self.low_threshold(), self.high_threshold(), now);
        if next.powered() == self.state.powered() {
            (
                ControllerModel { state: next, samples, ..self },
                Action { switch_power: None, persist_off_transition: false },
            )
        } else if self.warm_up_left > 0 {
            (
                ControllerModel {
                    state: next,
                    samples,
                    warm_up_left: (self.warm_up_left - 1) as nat,
                    ..self
                },
                Action { switch_power: Some(next.powered()), persist_off_transition: false },
            )
        } else if next.powered() {
            (
                ControllerModel {
                    state: next,
                    low: self.low.observe(samples.min()),
                    samples: Seq::empty(),
                    ..self
                },
                Action { switch_power: Some(true), persist_off_transition: false },
            )
        } else {
            (
                ControllerModel {
                    state: next,
                    high: self.high.observe(samples.max()),
                    samples: Seq::empty(),
                    ..self
                },
                Action { switch_power: Some(false), persist_off_transition: true },
            )
        }
    }
}

/// The control loop's decisions: the state machine, the two compensators and the
/// extremes of the current half-cycle.
pub struct Controller {
    state: State,
    low_compensator: Compensator,
    high_compensator: Compensator,
    extremes: ExtremeTracker,
    warm_up_left: u64,
}

impl View for Controller {
    type V = ControllerModel;

    closed spec fn view(&self) -> ControllerModel {
        ControllerModel {
            state: self.state,
            low: self.low_compensator@,
            high: self.high_compensator@,
            samples: self.extremes@,
            warm_up_left: self.warm_up_left as nat,
        }
    }
}

impl Controller {
    /// A controller starting in `initial_state`, with the two compensators seeded
    /// from earlier runs. The low one may only raise its threshold and the high
    /// one may only lower it.
    pub fn new(initial_state: State, seed_low_compensation: i32, seed_high_compensation: i32) -> (c:
        Self)
        ensures
            c@ == (ControllerModel {
                state: initial_state,
                low: CompensatorModel {
                    target: TARGET_LOW as int,
                    history: Seq::empty(),
                    compensation: seed_low_compensation as int,
                    max_compensation: MAX_COMPENSATION as int,
                },
                high: CompensatorModel {
                    target: TARGET_HIGH as int,
                    history: Seq::empty(),
                    compensation: seed_high_compensation as int,
                    max_compensation: -MAX_COMPENSATION,
                },
                samples: Seq::empty(),
                warm_up_left: WARM_UP_SWITCHES as nat,
            }),
    {
        Controller {
            state: initial_state,
            low_compensator: Compensator::new(TARGET_LOW, seed_low_compensation, MAX_COMPENSATION),
            high_compensator: Compensator::new(
                TARGET_HIGH,
                seed_high_compensation,
                -MAX_COMPENSATION,
            ),
            extremes: ExtremeTracker::new(),
            warm_up_left: WARM_UP_SWITCHES,
        }
    }

    pub fn state(&self) -> (r: State)
        ensures
            r == self@.state,
    {
        self.state
    }

    /// Whether to wait a poll interval before the next reading: only the very
    /// first reading after an unguarded startup comes at once.
    pub fn waits_before_reading(&self) -> (r: bool)
        ensures
            r == (self@.state != State::InitiallyOff),
    {
        self.state != State::InitiallyOff
    }

    pub fn low_threshold(&self) -> (r: i64)
        ensures
            r as int == self@.low_threshold(),
    {
        self.low_compensator.get_threshold()
    }

    pub fn high_threshold(&self) -> (r: i64)
        ensures
            r as int == self@.high_threshold(),
    {
        self.high_compensator.get_threshold()
    }

    pub fn low_compensator(&self) -> (r: &Compensator)
        ensures
            r@ == self@.low,
    {
        &self.low_compensator
    }

    pub fn high_compensator(&self) -> (r: &Compensator)
        ensures
            r@ == self@.high,
    {
        &self.high_compensator
    }

    /// Handles one reading of `temperature` taken at `now`.
    pub fn on_reading(&mut self, temperature: i32, now: i64) -> (a: Action)
        ensures
            (final(self)@, a) == old(self)@.step(temperature as int, now),
    {
        self.extremes.push(temperature);
        let low_threshold = self.low_compensator.get_threshold();
        let high_threshold = self.high_compensator.get_threshold();
        let previous = self.state;
        let next = transition(previous, temperature, low_threshold, high_threshold, now);
        self.state = next;
        if previous.is_on() == next.is_on() {
            return Action { switch_power: None, persist_off_transition: false };
        }
        let powered = next.is_on();
        if self.warm_up_left > 0 {
            self.warm_up_left = self.warm_up_left - 1;
            return Action { switch_power: Some(powered), persist_off_transition: false };
        }
        if powered {
            if let Some(lowest) = self.extremes.min() {
                self.low_compensator.push_observation(lowest);
            }
        } else {
            if let Some(highest) = self.extremes.max() {
                self.high_compensator.push_observation(highest);
            }
        }
        self.extremes.reset();
        Action { switch_power: Some(powered), persist_off_transition: !powered }
    }
}

} // verus!
