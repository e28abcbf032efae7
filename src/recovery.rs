use crate::state_machine::{State, MIN_OFF_DURATION_MS};
use vstd::prelude::*;

verus! {

/// What was known at startup about the relay before the restart. Durations are
/// milliseconds.
#[derive(PartialEq, Eq, Structural, Clone, Copy, Debug)]
pub enum RestoredPowerState {
    CurrentlyOn,
    OffFor(u64),
    OffForUnknownDuration,
}

/// `now` moved back by `duration`, or the earliest representable time when that
/// lies before it.
pub open spec fn earlier_by(now: i64, duration: int) -> i64 {
    if now - duration < i64::MIN {
        i64::MIN
    } else {
        (now - duration) as i64
    }
}

/// The safe state to start in. `None` stands for a restore that failed.
pub open spec fn startup_state(restored: Option<RestoredPowerState>, now: i64) -> State {
    match restored {
        Some(RestoredPowerState::CurrentlyOn) => State::GuardedOn(now),
        Some(RestoredPowerState::OffFor(d)) => if d > MIN_OFF_DURATION_MS {
            State::InitiallyOff
        } else {
            State::GuardedOff(earlier_by(now, d as int))
        },
        _ => State::GuardedOff(now),
    }
}

/// The initial control state after a restart, from what the environment restored
/// (`None` when restoring failed) and the current time. A relay found on is
/// guarded afresh; one off for longer than the minimum off time needs no guard;
/// otherwise the rest of the off guard is honoured.
pub fn init(restored: Option<RestoredPowerState>, now: i64) -> (r: State)
    ensures
        r == startup_state(restored, now),
{
    match restored {
        Some(RestoredPowerState::CurrentlyOn) => State::GuardedOn(now),
        Some(RestoredPowerState::OffFor(duration)) => if duration > MIN_OFF_DURATION_MS as u64 {
            State::InitiallyOff
        } else {
            let d = duration as i64;
            if now >= i64::MIN + d {
                State::GuardedOff(now - d)
            } else {
                State::GuardedOff(i64::MIN)
            }
        },
        Some(RestoredPowerState::OffForUnknownDuration) => State::GuardedOff(now),
        None => State::GuardedOff(now),
    }
}

/// Startup recovery: a relay off for longer than the minimum off time starts
/// unguarded, a relay found on starts a fresh on guard, and a failed restore
/// starts a fresh off guard.
pub proof fn lemma_startup_recovery(duration: u64, now: i64)
    requires
        duration > MIN_OFF_DURATION_MS,
    ensures
        startup_state(Some(RestoredPowerState::OffFor(duration)), now) == State::InitiallyOff,
        startup_state(Some(RestoredPowerState::CurrentlyOn), now) == State::GuardedOn(now),
        startup_state(None, now) == State::GuardedOff(now),
{
}

} // verus!
