use vstd::prelude::*;

verus! {

/// The lowest and highest temperature seen during the current half-cycle.
pub struct ExtremeTracker {
    min: i32,
    max: i32,
    measured: bool,
    samples: Ghost<Seq<int>>,
}

impl View for ExtremeTracker {
    /// The samples pushed since the tracker was created or last reset.
    type V = Seq<int>;

    closed spec fn view(&self) -> Seq<int> {
        self.samples@
    }
}

/// The minimum of `s.push(v)` is the smaller of the minimum of `s` and `v`, and
/// likewise for the maximum.
proof fn lemma_push_extremes(s: Seq<int>, v: int)
    requires
        s.len() > 0,
    ensures
        s.push(v).min() == if v < s.min() { v } else { s.min() },
        s.push(v).max() == if v > s.max() { v } else { s.max() },
{
    let t = s.push(v);
    s.min_ensures();
    s.max_ensures();
    t.min_ensures();
    t.max_ensures();
    assert(t[t.len() - 1] == v);
    let i = choose|i: int| 0 <= i < s.len() && s[i] == s.min();
    assert(t[i] == s[i]);
    let j = choose|j: int| 0 <= j < s.len() && s[j] == s.max();
    assert(t[j] == s[j]);
    let k = choose|k: int| 0 <= k < t.len() && t[k] == t.min();
    if k < s.len() {
        assert(t[k] == s[k]);
    }
    let l = choose|l: int| 0 <= l < t.len() && t[l] == t.max();
    if l < s.len() {
        assert(t[l] == s[l]);
    }
}

impl ExtremeTracker {
    #[verifier::type_invariant]
    spec fn well_formed(self) -> bool {
        &&& self.measured == (self.samples@.len() > 0)
        &&& self.measured ==> self.min == self.samples@.min() && self.max == self.samples@.max()
        &&& !self.measured ==> self.min == i32::MAX && self.max == i32::MIN
    }

    /// A tracker with no samples.
    pub fn new() -> (t: Self)
        ensures
            t@ == Seq::<int>::empty(),
    {
        ExtremeTracker { min: i32::MAX, max: i32::MIN, measured: false, samples: Ghost(Seq::empty()) }
    }

    /// Forgets every sample.
    pub fn reset(&mut self)
        ensures
            final(self)@ == Seq::<int>::empty(),
    {
        *self = Self::new();
    }

    /// Records one temperature.
    pub fn push(&mut self, value: i32)
        ensures
            final(self)@ == old(self)@.push(value as int),
    {
        proof {
            use_type_invariant(&*self);
        }
        let ghost before = self.samples@;
        let ghost after = before.push(value as int);
        proof {
            if before.len() > 0 {
                lemma_push_extremes(before, value as int);
            } else {
                assert(after =~= seq![value as int]);
            }
        }
        let new_min = if value < self.min {
            value
        } else {
            self.min
        };
        let new_max = if value > self.max {
            value
        } else {
            self.max
        };
        *self = ExtremeTracker { min: new_min, max: new_max, measured: true, samples: Ghost(after) };
    }

    /// The lowest sample, or `None` before any sample.
    pub fn min(&self) -> (r: Option<i32>)
        ensures
            self@.len() == 0 <==> r is None,
            r matches Some(m) ==> m as int == self@.min(),
    {
        proof {
            use_type_invariant(self);
        }
        if self.measured {
            Some(self.min)
        } else {
            None
        }
    }

    /// The highest sample, or `None` before any sample.
    pub fn max(&self) -> (r: Option<i32>)
        ensures
            self@.len() == 0 <==> r is None,
            r matches Some(m) ==> m as int == self@.max(),
    {
        proof {
            use_type_invariant(self);
        }
        if self.measured {
            Some(self.max)
        } else {
            None
        }
    }
}

} // verus!
