use crate::recovery::RestoredPowerState;
use vstd::prelude::*;

verus! {

/// The byte `+`, which may lead a stored number.
pub const PLUS: u8 = 43;

/// The byte `-`.
pub const MINUS: u8 = 45;

/// The byte `0`.
pub const DIGIT_ZERO: u8 = 48;

/// The byte `9`.
pub const DIGIT_NINE: u8 = 57;

pub open spec fn is_digit(c: u8) -> bool {
    DIGIT_ZERO <= c <= DIGIT_NINE
}

pub open spec fn all_digits(s: Seq<u8>) -> bool {
    forall|i: int| 0 <= i < s.len() ==> is_digit(#[trigger] s[i])
}

/// The number that a run of decimal digits denotes.
pub open spec fn decimal_value(s: Seq<u8>) -> int
    decreases s.len(),
{
    if s.len() == 0 {
        0
    } else {
        decimal_value(s.drop_last()) * 10 + (s.last() - DIGIT_ZERO)
    }
}

/// The digits of a stored number: the text without one leading `+`.
pub open spec fn unsigned_digits(s: Seq<u8>) -> Seq<u8> {
    if s.len() > 0 && s[0] == PLUS {
        s.drop_first()
    } else {
        s
    }
}

/// The count of seconds stored as `s`: an optional `+` and at least one decimal
/// digit, with nothing around them, for a value that fits in a `u64`.
pub open spec fn stored_seconds(s: Seq<u8>) -> Option<u64> {
    let digits = unsigned_digits(s);
    if digits.len() > 0 && all_digits(digits) && decimal_value(digits) <= u64::MAX {
        Some(decimal_value(digits) as u64)
    } else {
        None
    }
}

/// A run of digits denotes at least as much as any of its prefixes.
proof fn lemma_prefix_value(s: Seq<u8>, k: int)
    requires
        all_digits(s),
        0 <= k <= s.len(),
    ensures
        decimal_value(s.take(k)) <= decimal_value(s),
        decimal_value(s) >= 0,
    decreases s.len(),
{
    if s.len() > 0 {
        assert(all_digits(s.drop_last()));
        lemma_prefix_value(s.drop_last(), 0);
        if k < s.len() {
            lemma_prefix_value(s.drop_last(), k);
            assert(s.drop_last().take(k) =~= s.take(k));
        } else {
            assert(s.take(k) =~= s);
        }
    } else {
        assert(s.take(k) =~= s);
    }
}

/// Reads a count of seconds as stored by the environment, in the grammar of
/// `stored_seconds`.
pub fn parse_seconds(text: &[u8]) -> (r: Option<u64>)
    ensures
        r == stored_seconds(text@),
{
    let n = text.len();
    let start: usize = if n > 0 && text[0] == PLUS {
        1
    } else {
        0
    };
    let ghost digits = unsigned_digits(text@);
    proof {
        assert(digits =~= text@.subrange(start as int, n as int));
    }
    if start == n {
        return None;
    }
    let mut value: u64 = 0;
    let mut i: usize = start;
    while i < n
        invariant
            start <= i <= n,
            n == text@.len(),
            digits =~= text@.subrange(start as int, n as int),
            digits == unsigned_digits(text@),
            all_digits(digits.take(i - start)),
            value as int == decimal_value(digits.take(i - start)),
        decreases n - i,
    {
        let c = text[i];
        proof {
            assert(digits[i - start] == c);
        }
        let ghost prefix = digits.take(i - start);
        let ghost longer = digits.take(i - start + 1);
        proof {
            assert(longer.drop_last() =~= prefix);
            assert(longer.last() == c);
        }
        if c < DIGIT_ZERO || c > DIGIT_NINE {
            proof {
                assert(digits[i - start] == text@[i as int]);
                assert(!is_digit(digits[i - start]));
            }
            return None;
        }
        let d = (c - DIGIT_ZERO) as u64;
        if value > (u64::MAX - d) / 10 {
            proof {
                let q = (u64::MAX - d) / 10;
                assert(value >= q + 1);
                assert(q * 10 + 10 > u64::MAX - d);
                assert(decimal_value(longer) == value * 10 + d);
                assert(decimal_value(longer) > u64::MAX);
                assert(all_digits(longer));
                if all_digits(digits) {
                    lemma_prefix_value(digits, i - start + 1);
                }
            }
            return None;
        }
        value = value * 10 + d;
        i = i + 1;
        proof {
            assert(all_digits(longer));
        }
    }
    proof {
        assert(digits.take(n - start) =~= digits);
    }
    Some(value)
}

/// The whitespace bytes: tab, line feed, vertical tab, form feed, carriage return
/// and space.
pub open spec fn is_space(c: u8) -> bool {
    c == 9 || c == 10 || c == 11 || c == 12 || c == 13 || c == 32
}

pub open spec fn trim_start(s: Seq<u8>) -> Seq<u8>
    decreases s.len(),
{
    if s.len() > 0 && is_space(s[0]) {
        trim_start(s.drop_first())
    } else {
        s
    }
}

pub open spec fn trim_end(s: Seq<u8>) -> Seq<u8>
    decreases s.len(),
{
    if s.len() > 0 && is_space(s.last()) {
        trim_end(s.drop_last())
    } else {
        s
    }
}

/// A sensor reading in thousandths of a degree Celsius: decimal digits with an
/// optional sign, surrounded by any whitespace, for a value that fits in an `i32`.
pub open spec fn sensor_reading(s: Seq<u8>) -> Option<i32> {
    let t = trim_end(trim_start(s));
    let negative = t.len() > 0 && t[0] == MINUS;
    let digits = if t.len() > 0 && (t[0] == MINUS || t[0] == PLUS) {
        t.drop_first()
    } else {
        t
    };
    let value = if negative {
        -decimal_value(digits)
    } else {
        decimal_value(digits)
    };
    if digits.len() > 0 && all_digits(digits) && i32::MIN <= value <= i32::MAX {
        Some(value as i32)
    } else {
        None
    }
}

/// Reads a temperature as the sensor reports it, in the grammar of
/// `sensor_reading`.
pub fn parse_temperature(text: &[u8]) -> (r: Option<i32>)
    ensures
        r == sensor_reading(text@),
{
    let n = text.len();
    let mut start: usize = 0;
    proof {
        assert(text@.subrange(0, n as int) =~= text@);
    }
    while start < n && (text[start] == 9 || text[start] == 10 || text[start] == 11
        || text[start] == 12 || text[start] == 13 || text[start] == 32)
        invariant
            start <= n,
            n == text@.len(),
            trim_start(text@) == trim_start(text@.subrange(start as int, n as int)),
        decreases n - start,
    {
        proof {
            assert(text@.subrange(start as int, n as int).drop_first() =~= text@.subrange(
                start + 1,
                n as int,
            ));
        }
        start = start + 1;
    }
    let mut end: usize = n;
    while end > start && (text[end - 1] == 9 || text[end - 1] == 10 || text[end - 1] == 11
        || text[end - 1] == 12 || text[end - 1] == 13 || text[end - 1] == 32)
        invariant
            start <= end <= n,
            n == text@.len(),
            trim_end(text@.subrange(start as int, n as int)) == trim_end(
                text@.subrange(start as int, end as int),
            ),
        decreases end - start,
    {
        proof {
            assert(text@.subrange(start as int, end as int).drop_last() =~= text@.subrange(
                start as int,
                end - 1,
            ));
        }
        end = end - 1;
    }
    let ghost t = text@.subrange(start as int, end as int);
    proof {
        assert(trim_end(trim_start(text@)) == t);
    }
    if start == end {
        return None;
    }
    let negative = text[start] == MINUS;
    let first: usize = if text[start] == MINUS || text[start] == PLUS {
        start + 1
    } else {
        start
    };
    let ghost digits = if t.len() > 0 && (t[0] == MINUS || t[0] == PLUS) {
        t.drop_first()
    } else {
        t
    };
    proof {
        assert(digits =~= text@.subrange(first as int, end as int));
    }
    if first == end {
        return None;
    }
    let limit: u64 = 0x8000_0000;
    let mut value: u64 = 0;
    let mut i: usize = first;
    while i < end
        invariant
            first <= i <= end <= n,
            n == text@.len(),
            digits =~= text@.subrange(first as int, end as int),
            trim_end(trim_start(text@)) == t,
            digits == (if t.len() > 0 && (t[0] == MINUS || t[0] == PLUS) {
                t.drop_first()
            } else {
                t
            }),
            all_digits(digits.take(i - first)),
            value as int == decimal_value(digits.take(i - first)),
            limit == 0x8000_0000,
            value <= limit,
        decreases end - i,
    {
        let c = text[i];
        let ghost longer = digits.take(i - first + 1);
        proof {
            assert(digits[i - first] == c);
            assert(longer.drop_last() =~= digits.take(i - first));
            assert(longer.last() == c);
        }
        if c < DIGIT_ZERO || c > DIGIT_NINE {
            proof {
                assert(!is_digit(digits[i - first]));
            }
            return None;
        }
        let d = (c - DIGIT_ZERO) as u64;
        value = value * 10 + d;
        proof {
            assert(all_digits(longer));
        }
        if value > limit {
            proof {
                if all_digits(digits) {
                    lemma_prefix_value(digits, i - first + 1);
                }
            }
            return None;
        }
        i = i + 1;
    }
    proof {
        assert(digits.take(end - first) =~= digits);
    }
    if negative {
        Some((0 - value as i64) as i32)
    } else if value > 0x7fff_ffff {
        None
    } else {
        Some(value as i32)
    }
}

/// What reading the stored time of the last switch off gave.
pub enum LastOffRecord {
    /// Nothing was ever stored.
    Missing,
    /// The record exists but could not be read.
    Unreadable,
    /// The stored text.
    Text(Vec<u8>),
}

/// How long before `now_secs` the switch off at `last_secs` was, in milliseconds:
/// zero for a time not in the past, and the largest `u64` when too long to count.
pub open spec fn off_millis(now_secs: u64, last_secs: u64) -> u64 {
    if now_secs <= last_secs {
        0
    } else if (now_secs - last_secs) * 1000 > u64::MAX {
        u64::MAX
    } else {
        ((now_secs - last_secs) * 1000) as u64
    }
}

/// The restored power state, or `None` when it cannot be known.
pub open spec fn restored_power(relay_on: bool, last_off: Option<Option<Seq<u8>>>, now_secs: u64) -> Option<RestoredPowerState> {
    if relay_on {
        Some(RestoredPowerState::CurrentlyOn)
    } else {
        match last_off {
            None => Some(RestoredPowerState::OffForUnknownDuration),
            Some(None) => None,
            Some(Some(text)) => match stored_seconds(text) {
                Some(last) => Some(RestoredPowerState::OffFor(off_millis(now_secs, last))),
                None => None,
            },
        }
    }
}

impl LastOffRecord {
    /// `None` when nothing was stored, `Some(None)` when the record could not be
    /// read, and the stored text otherwise.
    pub open spec fn contents(&self) -> Option<Option<Seq<u8>>> {
        match self {
            LastOffRecord::Missing => None,
            LastOffRecord::Unreadable => Some(None),
            LastOffRecord::Text(t) => Some(Some(t@)),
        }
    }
}

/// What the relay was doing before the restart: on when the relay pin is found
/// high; off for an unknown time when no switch off was ever stored; off since
/// the stored switch off, measured against `now_secs` (seconds since the Unix
/// epoch), otherwise. `None` when the record cannot be read or parsed.
pub fn restored_power_state(relay_on: bool, last_off: &LastOffRecord, now_secs: u64) -> (r: Option<
    RestoredPowerState,
>)
    ensures
        r == restored_power(relay_on, last_off.contents(), now_secs),
{
    if relay_on {
        return Some(RestoredPowerState::CurrentlyOn);
    }
    match last_off {
        LastOffRecord::Missing => Some(RestoredPowerState::OffForUnknownDuration),
        LastOffRecord::Unreadable => None,
        LastOffRecord::Text(text) => match parse_seconds(text.as_slice()) {
            Some(last) => {
                let off = if now_secs <= last {
                    0
                } else if now_secs - last > u64::MAX / 1000 {
                    u64::MAX
                } else {
                    (now_secs - last) * 1000
                };
                Some(RestoredPowerState::OffFor(off))
            },
            None => None,
        },
    }
}

/// Relies on `std::time::SystemTime::now`, read as whole seconds since the Unix
/// epoch through `duration_since` and `as_secs`: `None` when the clock reads a
/// time before the epoch. The value depends on the clock, so nothing is stated of
/// it.
#[verifier::external_body]
fn wall_clock_seconds() -> (r: Option<u64>) {
    std::time::SystemTime::now().duration_since(std::time::UNIX_EPOCH).ok().map(|d| d.as_secs())
}

/// Seconds since the Unix epoch by the wall clock, or `None` when the clock reads
/// a time before the epoch.
pub fn sec_since_epoch() -> Option<u64> {
    wall_clock_seconds()
}

} // verus!
