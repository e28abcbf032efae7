use vstd::prelude::*;

verus! {

/// Once switched on, the relay stays on at least this long, in milliseconds.
pub const MIN_ON_DURATION_MS: i64 = 120_000;

/// Once switched off, the relay stays off at least this long, in milliseconds.
pub const MIN_OFF_DURATION_MS: i64 = 480_000;

/// The control state. Timestamps are milliseconds on a monotonic clock; a guarded
/// state remembers when its guard began.
#[derive(PartialEq, Eq, Structural, Clone, Copy, Debug)]
pub enum State {
    /// Off at startup, with no guard to honour.
    InitiallyOff,
    /// On, and held on until the minimum on time has passed.
    GuardedOn(i64),
    /// Off, and held off until the minimum off time has passed.
    GuardedOff(i64),
    On,
    Off,
}

impl State {
    pub open spec fn powered(self) -> bool {
        match self {
            State::GuardedOn(_) | State::On => true,
            _ => false,
        }
    }

    /// Whether the relay is on in this state.
    pub fn is_on(&self) -> (r: bool)
        ensures
            r == self.powered(),
    {
        match self {
            State::InitiallyOff => false,
            State::GuardedOn(_) => true,
            State::GuardedOff(_) => false,
            State::On => true,
            State::Off => false,
        }
    }

    pub fn is_off(&self) -> (r: bool)
        ensures
            r == !self.powered(),
    {
        !self.is_on()
    }
}

/// The state after one evaluation, with `low` and `high` as the thresholds of the
/// band and `now` as the time of the reading. A guard that has not expired holds
/// the state; otherwise an on state switches off below `low`, and an off state
/// switches on above `high`.
pub open spec fn next_state(state: State, temperature: int, low: int, high: int, now: i64) -> State {
    match state {
        State::GuardedOn(since) if now - since < MIN_ON_DURATION_MS => State::GuardedOn(since),
        State::GuardedOff(since) if now - since < MIN_OFF_DURATION_MS => State::GuardedOff(since),
        State::On | State::GuardedOn(_) => if temperature < low {
            State::GuardedOff(now)
        } else {
            State::On
        },
        _ => if temperature > high {
            State::GuardedOn(now)
        } else {
            State::Off
        },
    }
}

fn is_too_cold(temperature: i32, threshold: i64) -> (r: bool)
    ensures
        r == (temperature < threshold),
{
    (temperature as i64) < threshold
}

fn is_too_hot(temperature: i32, threshold: i64) -> (r: bool)
    ensures
        r == (temperature > threshold),
{
    (temperature as i64) > threshold
}

/// Whether at least `guard` milliseconds have passed from `since` to `now`.
fn guard_expired(since: i64, now: i64, guard: i64) -> (r: bool)
    ensures
        r == (now - since >= guard),
{
    (now as i128) - (since as i128) >= guard as i128
}

/// One evaluation of the state machine: two-point hysteresis between
/// `low_threshold` and `high_threshold`, with a minimum dwell time after each
/// switch.
pub fn transition(
    initial: State,
    current_temperature: i32,
    low_threshold: i64,
    high_threshold: i64,
    now: i64,
) -> (r: State)
    ensures
        r == next_state(
            initial,
            current_temperature as int,
            low_threshold as int,
            high_threshold as int,
            now,
        ),
{
    match initial {
        State::GuardedOn(s) if !guard_expired(s, now, MIN_ON_DURATION_MS) => State::GuardedOn(s),
        State::GuardedOff(s) if !guard_expired(s, now, MIN_OFF_DURATION_MS) => State::GuardedOff(
            s,
        ),
        State::On | State::GuardedOn(_) => if is_too_cold(current_temperature, low_threshold) {
            State::GuardedOff(now)
        } else {
            State::On
        },
        State::Off | State::InitiallyOff | State::GuardedOff(_) => if is_too_hot(
            current_temperature,
            high_threshold,
        ) {
            State::GuardedOn(now)
        } else {
            State::Off
        },
    }
}

/// A guard that has run its minimum time never holds the state: the next
/// evaluation leaves the guarded state.
pub proof fn lemma_expired_guard_moves_on(state: State, temperature: int, low: int, high: int, now: i64)
    ensures
        state matches State::GuardedOn(since) && now - since >= MIN_ON_DURATION_MS
            ==> next_state(state, temperature, low, high, now) != state,
        state matches State::GuardedOff(since) && now - since >= MIN_OFF_DURATION_MS
            ==> next_state(state, temperature, low, high, now) != state,
{
}

/// The dwell guard after switching on: one millisecond before the minimum on time
/// a reading below the low threshold leaves the relay on; one millisecond after
/// it, the same reading switches it off, guarded from that moment.
pub proof fn lemma_dwell_guard_on(since: i64, temperature: int, low: int, high: int)
    requires
        temperature < low,
        since + MIN_ON_DURATION_MS + 1 <= i64::MAX,
    ensures
        next_state(
            State::GuardedOn(since),
            temperature,
            low,
            high,
            (since + MIN_ON_DURATION_MS - 1) as i64,
        ) == State::GuardedOn(since),
        next_state(
            State::GuardedOn(since),
            temperature,
            low,
            high,
            (since + MIN_ON_DURATION_MS + 1) as i64,
        ) == State::GuardedOff((since + MIN_ON_DURATION_MS + 1) as i64),
{
}

} // verus!
