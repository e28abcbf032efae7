use std::collections::VecDeque;
use vstd::prelude::*;
use vstd::relations::{sorted_by, total_ordering};
use vstd::seq_lib::lemma_sorted_unique;

verus! {

broadcast use vstd::seq_lib::group_to_multiset_ensures;

/// How many recent deltas the compensator remembers; the oldest is evicted first.
pub const MAX_OBSERVATIONS: usize = 10;

/// A new median replaces the compensation only when it differs by more than this
/// many thousandths of a degree.
pub const MIN_UPDATE: i64 = 10;

/// Every delta and every compensation stays within this magnitude: a delta is a
/// threshold (an `i32` target plus a compensation no larger than an `i32` cap)
/// minus an `i32` observation.
pub const DELTA_BOUND: i64 = 0x2_0000_0000;

/// The sequence of integers that a sequence of `i64` values denotes.
pub open spec fn ints(s: Seq<i64>) -> Seq<int> {
    s.map_values(|x: i64| x as int)
}

pub open spec fn int_leq() -> spec_fn(int, int) -> bool {
    |x: int, y: int| x <= y
}

/// The median of a non-empty history: the middle of the sorted values for an odd
/// count, and the mean of the two middle values, rounded down, for an even count.
pub open spec fn median(s: Seq<int>) -> int {
    let t = s.sort();
    let n = t.len() as int;
    if n % 2 == 1 {
        t[n / 2]
    } else {
        (t[n as int / 2 - 1] + t[n / 2]) / 2
    }
}

/// What a compensator holds, in thousandths of a degree Celsius.
pub ghost struct CompensatorModel {
    pub target: int,
    pub history: Seq<int>,
    pub compensation: int,
    pub max_compensation: int,
}

impl CompensatorModel {
    /// The compensation has gone past the cap, in the direction the cap allows.
    pub open spec fn capped(self) -> bool {
        if self.max_compensation < 0 {
            self.compensation < self.max_compensation
        } else {
            self.compensation > self.max_compensation
        }
    }

    /// The compensation points the way the cap forbids.
    pub open spec fn inverted(self) -> bool {
        if self.max_compensation < 0 {
            self.compensation > 0
        } else {
            self.compensation < 0
        }
    }

    /// The compensation after capping and the inversion guard, in that order.
    pub open spec fn effective(self) -> int {
        if self.capped() {
            self.max_compensation
        } else if self.inverted() {
            0
        } else {
            self.compensation
        }
    }

    pub open spec fn threshold(self) -> int {
        self.target + self.effective()
    }

    /// The history after appending `delta` and evicting the oldest beyond capacity.
    pub open spec fn history_after(self, delta: int) -> Seq<int> {
        let h = self.history.push(delta);
        if h.len() > MAX_OBSERVATIONS {
            h.drop_first()
        } else {
            h
        }
    }

    /// The state after observing `value`: the delta from the current threshold
    /// enters the history, and the median of the history becomes the compensation
    /// when it moved by more than the minimum update.
    pub open spec fn observe(self, value: int) -> CompensatorModel {
        let h = self.history_after(self.threshold() - value);
        let m = median(h);
        CompensatorModel {
            history: h,
            compensation: if m - self.compensation > MIN_UPDATE || self.compensation - m
                > MIN_UPDATE {
                m
            } else {
                self.compensation
            },
            ..self
        }
    }

    /// The state after observing each of `values` in order.
    pub open spec fn observe_all(self, values: Seq<int>) -> CompensatorModel
        decreases values.len(),
    {
        if values.len() == 0 {
            self
        } else {
            self.observe_all(values.drop_last()).observe(values.last())
        }
    }
}

/// Whatever observations a compensator is fed, the compensation in effect never
/// exceeds the cap in magnitude and never has the sign opposite to the cap.
pub proof fn lemma_compensation_within_cap(m: CompensatorModel, values: Seq<int>)
    requires
        m.max_compensation != 0,
    ensures
        m.observe_all(values).max_compensation == m.max_compensation,
        m.max_compensation > 0 ==> 0 <= m.observe_all(values).effective() <= m.max_compensation,
        m.max_compensation < 0 ==> m.max_compensation <= m.observe_all(values).effective() <= 0,
    decreases values.len(),
{
    if values.len() > 0 {
        lemma_compensation_within_cap(m, values.drop_last());
    }
}

/// Capping: a compensation past the cap takes effect as exactly the cap.
pub proof fn lemma_capping(m: CompensatorModel)
    requires
        m.capped(),
    ensures
        m.effective() == m.max_compensation,
        m.threshold() == m.target + m.max_compensation,
{
}

/// Inversion guard: a compensation of the disallowed sign takes effect as zero,
/// and does not count as capped.
pub proof fn lemma_inversion_guard(m: CompensatorModel)
    requires
        m.max_compensation != 0,
        m.inverted(),
    ensures
        m.effective() == 0,
        !m.capped(),
        m.threshold() == m.target,
{
}

/// The median of a single value is that value.
proof fn lemma_median_single(x: int)
    ensures
        median(seq![x]) == x,
{
    let s = seq![x];
    lemma_sort_members(s);
    assert(s.contains(s.sort()[0]));
}

/// A compensator with no history and no compensation takes its first observation
/// as it is: one on target leaves the compensation at zero, and one a degree above
/// target, under a downward cap of at least a degree, lowers the compensation and
/// the threshold by a degree.
pub proof fn lemma_first_observation(target: int, max_compensation: int)
    requires
        max_compensation != 0,
    ensures
        ({
            let m = CompensatorModel {
                target,
                history: Seq::empty(),
                compensation: 0,
                max_compensation,
            };
            &&& m.observe(target).compensation == 0
            &&& m.observe(target).effective() == 0
            &&& m.observe(target).threshold() == target
            &&& max_compensation <= -1000 ==> m.observe(target + 1000).compensation == -1000
                && m.observe(target + 1000).effective() == -1000 && m.observe(
                target + 1000,
            ).threshold() == target - 1000
        }),
{
    let m = CompensatorModel { target, history: Seq::empty(), compensation: 0, max_compensation };
    assert(m.history.push(0) =~= seq![0int]);
    lemma_median_single(0);
    assert(m.history.push(-1000) =~= seq![-1000int]);
    lemma_median_single(-1000);
}

/// Adaptive offset for one edge of the target band, learned from the extremes
/// seen in past half-cycles. The sign of the cap fixes the one direction in which
/// the threshold may move.
pub struct Compensator {
    target: i32,
    observations: VecDeque<i64>,
    compensation: i64,
    max_compensation: i32,
}

impl View for Compensator {
    type V = CompensatorModel;

    closed spec fn view(&self) -> CompensatorModel {
        CompensatorModel {
            target: self.target as int,
            history: ints(self.observations@),
            compensation: self.compensation as int,
            max_compensation: self.max_compensation as int,
        }
    }
}

impl Compensator {
    #[verifier::type_invariant]
    spec fn well_formed(self) -> bool {
        &&& self.max_compensation != 0
        &&& self.observations@.len() <= MAX_OBSERVATIONS
        &&& forall|i: int|
            0 <= i < self.observations@.len() ==> -DELTA_BOUND <= #[trigger] self.observations@[i]
                <= DELTA_BOUND
        &&& -DELTA_BOUND <= self.compensation <= DELTA_BOUND
    }

    /// A compensator for `target` that starts from `seed_compensation`, with no
    /// history. A cap of zero would allow no direction at all.
    pub fn new(target: i32, seed_compensation: i32, max_compensation: i32) -> (c: Self)
        requires
            max_compensation != 0,
        ensures
            c@ == (CompensatorModel {
                target: target as int,
                history: Seq::empty(),
                compensation: seed_compensation as int,
                max_compensation: max_compensation as int,
            }),
    {
        let c = Compensator {
            target,
            observations: VecDeque::new(),
            compensation: seed_compensation as i64,
            max_compensation,
        };
        proof {
            assert(ints(c.observations@) =~= Seq::empty());
        }
        c
    }

    /// The compensation in effect. It never exceeds the cap in magnitude and never
    /// has the sign opposite to the cap.
    pub fn get_compensation(&self) -> (r: i64)
        ensures
            r as int == self@.effective(),
            self@.max_compensation > 0 ==> 0 <= r <= self@.max_compensation,
            self@.max_compensation < 0 ==> self@.max_compensation <= r <= 0,
            self@.capped() ==> r as int == self@.max_compensation,
            self@.inverted() ==> r == 0,
    {
        proof {
            use_type_invariant(self);
        }
        if self.is_capped() {
            return self.max_compensation as i64;
        }
        if self.is_inverted() {
            return 0;
        }
        self.compensation
    }

    pub fn is_capped(&self) -> (r: bool)
        ensures
            r == self@.capped(),
    {
        if self.max_compensation < 0 {
            self.compensation < self.max_compensation as i64
        } else {
            self.compensation > self.max_compensation as i64
        }
    }

    fn is_inverted(&self) -> (r: bool)
        ensures
            r == self@.inverted(),
    {
        if self.max_compensation < 0 {
            self.compensation > 0
        } else {
            self.compensation < 0
        }
    }

    /// The target moved by the compensation in effect.
    pub fn get_threshold(&self) -> (r: i64)
        ensures
            r as int == self@.threshold(),
    {
        self.target as i64 + self.get_compensation()
    }

    /// Learns from the extreme `value` seen in the last half-cycle.
    pub fn push_observation(&mut self, value: i32)
        ensures
            final(self)@ == old(self)@.observe(value as int),
    {
        proof {
            use_type_invariant(&*self);
        }
        let delta: i64 = self.get_threshold() - value as i64;
        let ghost pushed = self.observations@.push(delta);
        let ghost expected = if pushed.len() > MAX_OBSERVATIONS {
            pushed.drop_first()
        } else {
            pushed
        };
        let n = self.observations.len();
        let first: usize = if n + 1 > MAX_OBSERVATIONS {
            1
        } else {
            0
        };
        let mut kept: VecDeque<i64> = VecDeque::new();
        let mut i: usize = first;
        while i < n
            invariant
                n == self.observations@.len(),
                first <= i <= n,
                kept@ == self.observations@.subrange(first as int, i as int),
            decreases n - i,
        {
            kept.push_back(self.observations[i]);
            proof {
                assert(self.observations@.subrange(first as int, i + 1) =~= self.observations@.subrange(first as int, i as int).push(self.observations@[i as int]));
            }
            i = i + 1;
        }
        kept.push_back(delta);
        proof {
            assert(kept@ =~= expected);
            assert(ints(expected) =~= old(self)@.history_after(delta as int));
        }
        self.observations = kept;
        let median_delta = median_of(&self.observations);
        let update = median_delta - self.compensation;
        if update > MIN_UPDATE || update < -MIN_UPDATE {
            self.compensation = median_delta;
        }
    }
}

proof fn lemma_int_leq_total()
    ensures
        total_ordering(int_leq()),
{
}

/// Every value of the sorted sequence is a value of the unsorted one.
proof fn lemma_sort_members(s: Seq<int>)
    ensures
        s.sort().len() == s.len(),
        s.to_multiset() =~= s.sort().to_multiset(),
        sorted_by(s.sort(), int_leq()),
        forall|i: int| 0 <= i < s.len() ==> #[trigger] s.contains(s.sort()[i]),
{
    s.lemma_sort_ensures();
    assert(s.to_multiset().len() == s.len());
    assert(s.sort().to_multiset().len() == s.sort().len());
    assert forall|i: int| 0 <= i < s.len() implies #[trigger] s.contains(s.sort()[i]) by {
        let x = s.sort()[i];
        assert(s.sort()[i] == x);
        assert(s.sort().contains(x));
        assert(s.sort().to_multiset().count(x) > 0);
    }
}

/// The median of the history, computed on a sorted copy.
fn median_of(h: &VecDeque<i64>) -> (m: i64)
    requires
        h@.len() >= 1,
        forall|i: int| 0 <= i < h@.len() ==> -DELTA_BOUND <= #[trigger] h@[i] <= DELTA_BOUND,
    ensures
        m as int == median(ints(h@)),
        -DELTA_BOUND <= m <= DELTA_BOUND,
{
    let sorted = sorted_history(h);
    proof {
        lemma_sort_members(ints(h@));
        assert forall|i: int| 0 <= i < sorted@.len() implies -DELTA_BOUND <= #[trigger] sorted@[i]
            <= DELTA_BOUND by {
            let s = ints(h@);
            assert(ints(sorted@)[i] == sorted@[i] as int);
            assert(s.contains(s.sort()[i]));
            let k = choose|k: int| 0 <= k < s.len() && s[k] == s.sort()[i];
            assert(s[k] == h@[k] as int);
        }
    }
    let n = sorted.len();
    if n % 2 == 1 {
        proof {
            assert(ints(sorted@)[n as int / 2] == sorted@[n as int / 2] as int);
        }
        sorted[n / 2]
    } else {
        let low = sorted[n / 2 - 1];
        let high = sorted[n / 2];
        proof {
            assert(ints(sorted@)[n as int / 2 - 1] == low as int);
            assert(ints(sorted@)[n as int / 2] == high as int);
            assert(int_leq()(ints(sorted@)[n as int / 2 - 1], ints(sorted@)[n as int / 2]));
        }
        low + (high - low) / 2
    }
}

/// A sorted copy of the history.
fn sorted_history(h: &VecDeque<i64>) -> (r: Vec<i64>)
    ensures
        ints(r@) == ints(h@).sort(),
{
    let n = h.len();
    let mut out: Vec<i64> = Vec::new();
    let mut i: usize = 0;
    while i < n
        invariant
            n == h@.len(),
            0 <= i <= n,
            sorted_by(ints(out@), int_leq()),
            ints(out@).to_multiset() == ints(h@.take(i as int)).to_multiset(),
        decreases n - i,
    {
        let x = h[i];
        let mut p: usize = 0;
        while p < out.len() && out[p] <= x
            invariant
                0 <= p <= out@.len(),
                forall|k: int| 0 <= k < p ==> out@[k] <= x,
            decreases out@.len() - p,
        {
            p = p + 1;
        }
        proof {
            assert(ints(out@.insert(p as int, x)) =~= ints(out@).insert(p as int, x as int));
            assert(ints(h@.take(i + 1)) =~= ints(h@.take(i as int)).push(x as int));
        }
        let ghost before = ints(out@);
        out.insert(p, x);
        proof {
            let after = ints(out@);
            assert forall|a: int, b: int| 0 <= a < b < after.len() implies #[trigger] int_leq()(
                after[a],
                after[b],
            ) by {
                if a < p && b > p {
                    assert(int_leq()(before[a], before[b - 1]));
                } else if a < p && b < p {
                    assert(int_leq()(before[a], before[b]));
                } else if a > p {
                    assert(int_leq()(before[a - 1], before[b - 1]));
                } else if b > p + 1 {
                    assert(int_leq()(before[p as int], before[b - 1]));
                }
            }
        }
        i = i + 1;
    }
    proof {
        assert(h@.take(n as int) =~= h@);
        lemma_sort_members(ints(h@));
        lemma_int_leq_total();
        lemma_sorted_unique(ints(out@), ints(h@).sort(), int_leq());
    }
    out
}

} // verus!
