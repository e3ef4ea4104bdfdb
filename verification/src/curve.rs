//! Curves of an amount over time: constant, a single linear segment that
//! saturates at both ends, or piecewise linear through a list of steps.
use vstd::prelude::*;

verus! {

/// Why a curve is refused.
#[derive(Clone, Copy, Debug, PartialEq, Eq, Structural)]
pub enum CurveError {
    NotMonotonic,
    PointsOutOfOrder,
    TooComplex,
    MissingSteps,
}

/// `min_y` up to `min_x`, `max_y` from `max_x`, linear in between.
#[derive(Clone, Copy, Debug, PartialEq, Eq, Structural)]
pub struct SaturatingLinear {
    pub min_x: u64,
    pub min_y: u128,
    pub max_x: u64,
    pub max_y: u128,
}

/// A point of a piecewise linear curve.
#[derive(Clone, Copy, Debug, PartialEq, Eq, Structural)]
pub struct Step {
    pub time: u64,
    pub value: u128,
}

/// Linear between consecutive steps, flat before the first and after the last.
#[derive(Clone, Debug, PartialEq, Eq)]
pub struct PiecewiseLinear {
    pub steps: Vec<Step>,
}

/// A curve of an amount over time.
#[derive(Clone, Debug, PartialEq, Eq)]
pub enum Curve {
    Constant(u128),
    SaturatingLinear(SaturatingLinear),
    PiecewiseLinear(PiecewiseLinear),
}

/// The value at `x` on the line through `(x0, y0)` and `(x1, y1)`, rounded
/// toward `y0`; `None` where the arithmetic underflows, divides by zero or
/// overflows `u128`.
pub open spec fn interpolate_spec(x0: u64, y0: u128, x1: u64, y1: u128, x: u64) -> Option<int> {
    if x < x0 || x1 <= x0 {
        None
    } else if y1 > y0 {
        let product = (y1 - y0) * (x - x0);
        if product > u128::MAX || y0 + product / ((x1 - x0) as int) > u128::MAX {
            None
        } else {
            Some(y0 + product / ((x1 - x0) as int))
        }
    } else {
        let product = (y0 - y1) * (x - x0);
        if product > u128::MAX || product / ((x1 - x0) as int) > y0 {
            None
        } else {
            Some(y0 - product / ((x1 - x0) as int))
        }
    }
}

pub open spec fn saturating_value_spec(s: SaturatingLinear, x: u64) -> Option<int> {
    if x < s.min_x {
        Some(s.min_y as int)
    } else if x > s.max_x {
        Some(s.max_y as int)
    } else {
        interpolate_spec(s.min_x, s.min_y, s.max_x, s.max_y, x)
    }
}

/// The index of the first step at or after `x`, scanning from `j`; the last
/// index when every step lies before `x`.
pub open spec fn scan_from(steps: Seq<Step>, j: nat, x: u64) -> nat
    decreases steps.len() - j,
{
    if j + 1 >= steps.len() {
        j
    } else if x > steps[j as int].time {
        scan_from(steps, j + 1, x)
    } else {
        j
    }
}

pub open spec fn piecewise_value_spec(steps: Seq<Step>, x: u64) -> Option<int> {
    let j = scan_from(steps, 0, x) as int;
    if steps.len() == 0 {
        None
    } else if j == 0 {
        Some(steps[0].value as int)
    } else {
        let prev = steps[j - 1];
        let next = steps[j];
        if x == prev.time {
            Some(prev.value as int)
        } else if x >= next.time {
            Some(next.value as int)
        } else {
            interpolate_spec(prev.time, prev.value, next.time, next.value, x)
        }
    }
}

/// The curve's value at `x`, or `None` where computing it traps.
pub open spec fn curve_value_spec(c: Curve, x: u64) -> Option<int> {
    match c {
        Curve::Constant(y) => Some(y as int),
        Curve::SaturatingLinear(s) => saturating_value_spec(s, x),
        Curve::PiecewiseLinear(p) => piecewise_value_spec(p.steps@, x),
    }
}

pub open spec fn opt_u128(o: Option<int>) -> Option<u128> {
    match o {
        Some(v) => Some(v as u128),
        None => None,
    }
}

pub open spec fn in_u128(v: int) -> bool {
    0 <= v <= u128::MAX
}

pub fn interpolate(x0: u64, y0: u128, x1: u64, y1: u128, x: u64) -> (r: Option<u128>)
    ensures
        r == opt_u128(interpolate_spec(x0, y0, x1, y1, x)),
        interpolate_spec(x0, y0, x1, y1, x) matches Some(v) ==> in_u128(v),
{
    if x < x0 || x1 <= x0 {
        return None;
    }
    let dx = (x - x0) as u128;
    let range = (x1 - x0) as u128;
    if y1 > y0 {
        let dy = y1 - y0;
        match dy.checked_mul(dx) {
            None => None,
            Some(p) => {
                let q = p / range;
                match y0.checked_add(q) {
                    Some(v) => Some(v),
                    None => None,
                }
            },
        }
    } else {
        let dy = y0 - y1;
        match dy.checked_mul(dx) {
            None => None,
            Some(p) => {
                let q = p / range;
                if q > y0 {
                    None
                } else {
                    Some(y0 - q)
                }
            },
        }
    }
}

impl SaturatingLinear {
    /// The value at `x`, or `None` where computing it traps.
    pub fn checked_value(&self, x: u64) -> (r: Option<u128>)
        ensures
            r == opt_u128(saturating_value_spec(*self, x)),
            saturating_value_spec(*self, x) matches Some(v) ==> in_u128(v),
    {
        if x < self.min_x {
            Some(self.min_y)
        } else if x > self.max_x {
            Some(self.max_y)
        } else {
            interpolate(self.min_x, self.min_y, self.max_x, self.max_y, x)
        }
    }

    /// The lowest and highest value the curve takes.
    pub fn range(&self) -> (r: (u128, u128))
        ensures
            r.0 == if self.max_y > self.min_y { self.min_y } else { self.max_y },
            r.1 == if self.max_y > self.min_y { self.max_y } else { self.min_y },
    {
        if self.max_y > self.min_y {
            (self.min_y, self.max_y)
        } else {
            (self.max_y, self.min_y)
        }
    }

    /// The end point must lie strictly after the start point.
    pub fn validate(&self) -> (r: Result<(), CurveError>)
        ensures
            r == if self.max_x <= self.min_x { Err(CurveError::PointsOutOfOrder) } else { Ok(()) },
    {
        if self.max_x <= self.min_x {
            return Err(CurveError::PointsOutOfOrder);
        }
        Ok(())
    }

    pub fn validate_monotonic_increasing(&self) -> (r: Result<(), CurveError>)
        ensures
            r == if self.max_x <= self.min_x {
                Err(CurveError::PointsOutOfOrder)
            } else if self.max_y < self.min_y {
                Err(CurveError::NotMonotonic)
            } else {
                Ok(())
            },
    {
        match self.validate() {
            Err(e) => return Err(e),
            Ok(()) => {},
        }
        if self.max_y < self.min_y {
            return Err(CurveError::NotMonotonic);
        }
        Ok(())
    }

    pub fn validate_monotonic_decreasing(&self) -> (r: Result<(), CurveError>)
        ensures
            r == if self.max_x <= self.min_x {
                Err(CurveError::PointsOutOfOrder)
            } else if self.max_y > self.min_y {
                Err(CurveError::NotMonotonic)
            } else {
                Ok(())
            },
    {
        match self.validate() {
            Err(e) => return Err(e),
            Ok(()) => {},
        }
        if self.max_y > self.min_y {
            return Err(CurveError::NotMonotonic);
        }
        Ok(())
    }
}

/// Times strictly increasing and all above zero.
pub open spec fn times_ordered(steps: Seq<Step>) -> bool {
    &&& forall|i: int| 0 <= i < steps.len() ==> steps[i].time > 0
    &&& forall|i: int, j: int| 0 <= i < j < steps.len() ==> steps[i].time < steps[j].time
}

pub open spec fn values_increasing(steps: Seq<Step>) -> bool {
    forall|i: int, j: int| 0 <= i < j < steps.len() ==> steps[i].value <= steps[j].value
}

pub open spec fn values_decreasing(steps: Seq<Step>) -> bool {
    forall|i: int, j: int| 0 <= i < j < steps.len() ==> steps[i].value >= steps[j].value
}

pub open spec fn piecewise_validate_spec(steps: Seq<Step>) -> Result<(), CurveError> {
    if steps.len() == 0 {
        Err(CurveError::MissingSteps)
    } else if !times_ordered(steps) {
        Err(CurveError::PointsOutOfOrder)
    } else {
        Ok(())
    }
}

impl PiecewiseLinear {
    /// The value at `x`, or `None` where computing it traps (no steps, or an
    /// interpolation that overflows).
    pub fn checked_value(&self, x: u64) -> (r: Option<u128>)
        ensures
            r == opt_u128(piecewise_value_spec(self.steps@, x)),
            piecewise_value_spec(self.steps@, x) matches Some(v) ==> in_u128(v),
    {
        steps_value(&self.steps, x)
    }

    /// The value of the first step.
    pub fn first_value(&self) -> (r: Option<u128>)
        ensures
            r == if self.steps@.len() == 0 { None } else { Some(self.steps@[0].value) },
    {
        if self.steps.len() == 0 {
            None
        } else {
            Some(self.steps[0].value)
        }
    }

    /// The value of the last step.
    pub fn end_value(&self) -> (r: Option<u128>)
        ensures
            r == if self.steps@.len() == 0 { None } else { Some(self.steps@.last().value) },
    {
        let n = self.steps.len();
        if n == 0 {
            None
        } else {
            Some(self.steps[n - 1].value)
        }
    }

    /// There must be steps, at strictly increasing times above zero.
    pub fn validate(&self) -> (r: Result<(), CurveError>)
        ensures
            r == piecewise_validate_spec(self.steps@),
    {
        let n = self.steps.len();
        if n == 0 {
            return Err(CurveError::MissingSteps);
        }
        let mut last: u64 = 0;
        let mut i: usize = 0;
        while i < n
            invariant
                n == self.steps@.len(),
                0 <= i <= n,
                i == 0 ==> last == 0,
                i > 0 ==> last == self.steps@[i - 1].time,
                forall|k: int| 0 <= k < i ==> self.steps@[k].time > 0,
                forall|k: int, l: int| 0 <= k < l < i ==> self.steps@[k].time < self.steps@[l].time,
            decreases n - i,
        {
            let t = self.steps[i].time;
            if !(t > last) {
                assert(!times_ordered(self.steps@)) by {
                    if i > 0 {
                        assert(self.steps@[i - 1].time >= self.steps@[i as int].time);
                    } else {
                        assert(self.steps@[0].time == 0);
                    }
                }
                return Err(CurveError::PointsOutOfOrder);
            }
            last = t;
            i = i + 1;
        }
        Ok(())
    }

    pub fn validate_monotonic_increasing(&self) -> (r: Result<(), CurveError>)
        ensures
            r == match piecewise_validate_spec(self.steps@) {
                Err(e) => Err(e),
                Ok(()) => if values_increasing(self.steps@) { Ok(()) } else { Err(CurveError::NotMonotonic) },
            },
    {
        match self.validate() {
            Err(e) => return Err(e),
            Ok(()) => {},
        }
        let n = self.steps.len();
        let mut i: usize = 1;
        while i < n
            invariant
                n == self.steps@.len(),
                1 <= i <= n,
                forall|k: int, l: int| 0 <= k < l < i ==> self.steps@[k].value <= self.steps@[l].value,
                piecewise_validate_spec(self.steps@) == Ok::<(), CurveError>(()),
            decreases n - i,
        {
            if self.steps[i - 1].value > self.steps[i].value {
                assert(self.steps@[i - 1].value > self.steps@[i as int].value);
                return Err(CurveError::NotMonotonic);
            }
            i = i + 1;
        }
        Ok(())
    }

    pub fn validate_monotonic_decreasing(&self) -> (r: Result<(), CurveError>)
        ensures
            r == match piecewise_validate_spec(self.steps@) {
                Err(e) => Err(e),
                Ok(()) => if values_decreasing(self.steps@) { Ok(()) } else { Err(CurveError::NotMonotonic) },
            },
    {
        match self.validate() {
            Err(e) => return Err(e),
            Ok(()) => {},
        }
        let n = self.steps.len();
        let mut i: usize = 1;
        while i < n
            invariant
                n == self.steps@.len(),
                1 <= i <= n,
                forall|k: int, l: int| 0 <= k < l < i ==> self.steps@[k].value >= self.steps@[l].value,
                piecewise_validate_spec(self.steps@) == Ok::<(), CurveError>(()),
            decreases n - i,
        {
            if self.steps[i - 1].value < self.steps[i].value {
                assert(self.steps@[i - 1].value < self.steps@[i as int].value);
                return Err(CurveError::NotMonotonic);
            }
            i = i + 1;
        }
        Ok(())
    }

    /// The lowest and highest step value; `None` without steps.
    pub fn range(&self) -> (r: Option<(u128, u128)>)
        ensures
            self.steps@.len() == 0 <==> r.is_none(),
            r matches Some((lo, hi)) ==> {
                &&& (forall|i: int| 0 <= i < self.steps@.len() ==> lo <= #[trigger] self.steps@[i].value <= hi)
                &&& (exists|i: int| 0 <= i < self.steps@.len() && self.steps@[i].value == lo)
                &&& (exists|i: int| 0 <= i < self.steps@.len() && self.steps@[i].value == hi)
            },
    {
        let n = self.steps.len();
        if n == 0 {
            return None;
        }
        let mut lo = self.steps[0].value;
        let mut hi = self.steps[0].value;
        let mut i: usize = 1;
        while i < n
            invariant
                n == self.steps@.len(),
                1 <= i <= n,
                forall|k: int| 0 <= k < i ==> lo <= #[trigger] self.steps@[k].value <= hi,
                exists|k: int| 0 <= k < i && self.steps@[k].value == lo,
                exists|k: int| 0 <= k < i && self.steps@[k].value == hi,
            decreases n - i,
        {
            let v = self.steps[i].value;
            if v < lo {
                lo = v;
            }
            if v > hi {
                hi = v;
            }
            i = i + 1;
        }
        Some((lo, hi))
    }
}

pub open spec fn curve_size_spec(c: Curve) -> int {
    match c {
        Curve::Constant(_) => 1,
        Curve::SaturatingLinear(_) => 2,
        Curve::PiecewiseLinear(p) => p.steps@.len() as int,
    }
}

pub open spec fn curve_end_spec(c: Curve) -> Option<u64> {
    match c {
        Curve::Constant(_) => None,
        Curve::SaturatingLinear(s) => Some(s.max_x),
        Curve::PiecewiseLinear(p) => if p.steps@.len() == 0 { None } else { Some(p.steps@.last().time) },
    }
}

/// The value at `x` of the piecewise linear curve through `steps`.
pub fn steps_value(steps: &Vec<Step>, x: u64) -> (r: Option<u128>)
    ensures
        r == opt_u128(piecewise_value_spec(steps@, x)),
        piecewise_value_spec(steps@, x) matches Some(v) ==> in_u128(v),
{
    let n = steps.len();
    if n == 0 {
        return None;
    }
    let mut j: usize = 0;
    while j + 1 < n && x > steps[j].time
        invariant
            n == steps@.len(),
            0 <= j < n,
            scan_from(steps@, 0, x) == scan_from(steps@, j as nat, x),
        decreases n - j,
    {
        j = j + 1;
    }
    if j == 0 {
        return Some(steps[0].value);
    }
    let prev = steps[j - 1];
    let next = steps[j];
    if x == prev.time {
        Some(prev.value)
    } else if x >= next.time {
        Some(next.value)
    } else {
        interpolate(prev.time, prev.value, next.time, next.value, x)
    }
}

pub open spec fn strictly_increasing(s: Seq<u64>) -> bool {
    forall|i: int, j: int| 0 <= i < j < s.len() ==> s[i] < s[j]
}

pub open spec fn has_time(steps: Seq<Step>, t: u64) -> bool {
    exists|i: int| 0 <= i < steps.len() && steps[i].time == t
}

/// Inserts `t` into the sorted, duplicate-free `times`.
fn insert_time(times: &mut Vec<u64>, t: u64)
    requires
        strictly_increasing(old(times)@),
    ensures
        strictly_increasing(final(times)@),
        forall|x: u64| final(times)@.contains(x) <==> (old(times)@.contains(x) || x == t),
{
    let n = times.len();
    let mut i: usize = 0;
    while i < n && times[i] < t
        invariant
            n == times@.len(),
            times@ == old(times)@,
            strictly_increasing(times@),
            0 <= i <= n,
            forall|k: int| 0 <= k < i ==> times@[k] < t,
        decreases n - i,
    {
        i = i + 1;
    }
    if i < n && times[i] == t {
        assert(times@[i as int] == t);
        return;
    }
    let ghost before = times@;
    times.insert(i, t);
    proof {
        lemma_insert_contains(before, i as int, t);
        lemma_insert_sorted(before, i as int, t);
    }
}

proof fn lemma_insert_contains(s: Seq<u64>, i: int, t: u64)
    requires
        0 <= i <= s.len(),
    ensures
        forall|x: u64| s.insert(i, t).contains(x) <==> (s.contains(x) || x == t),
{
    let r = s.insert(i, t);
    assert forall|x: u64| r.contains(x) <==> (s.contains(x) || x == t) by {
        if r.contains(x) {
            let k = choose|k: int| 0 <= k < r.len() && r[k] == x;
            if k < i {
                assert(s[k] == x);
            } else if k > i {
                assert(s[k - 1] == x);
            }
        }
        if s.contains(x) {
            let k = choose|k: int| 0 <= k < s.len() && s[k] == x;
            if k < i {
                assert(r[k] == x);
            } else {
                assert(r[k + 1] == x);
            }
        }
        if x == t {
            assert(r[i] == x);
        }
    }
}

proof fn lemma_insert_sorted(s: Seq<u64>, i: int, t: u64)
    requires
        0 <= i <= s.len(),
        strictly_increasing(s),
        forall|k: int| 0 <= k < i ==> s[k] < t,
        i < s.len() ==> s[i] > t,
    ensures
        strictly_increasing(s.insert(i, t)),
{
    let r = s.insert(i, t);
    assert forall|a: int, b: int| 0 <= a < b < r.len() implies r[a] < r[b] by {
        if b < i {
        } else if a < i && b == i {
        } else if a < i && b > i {
            assert(s[a] < s[b - 1]);
        } else if a == i {
            if b - 1 > i {
                assert(s[i] < s[b - 1]);
            }
        } else {
        }
    }
}

/// The sorted, duplicate-free times of both step lists.
fn union_times(a: &Vec<Step>, b: &Vec<Step>) -> (r: Vec<u64>)
    ensures
        strictly_increasing(r@),
        forall|x: u64| r@.contains(x) <==> (has_time(a@, x) || has_time(b@, x)),
{
    let mut times: Vec<u64> = Vec::new();
    let mut i: usize = 0;
    while i < a.len()
        invariant
            0 <= i <= a@.len(),
            strictly_increasing(times@),
            forall|x: u64| times@.contains(x) <==> (exists|k: int| 0 <= k < i && a@[k].time == x),
        decreases a@.len() - i,
    {
        insert_time(&mut times, a[i].time);
        proof {
            assert forall|x: u64| times@.contains(x) <==> (exists|k: int| 0 <= k < i + 1 && a@[k].time == x) by {
                if x == a@[i as int].time {
                    assert(0 <= i < i + 1 && a@[i as int].time == x);
                }
            }
        }
        i = i + 1;
    }
    let mut j: usize = 0;
    while j < b.len()
        invariant
            0 <= j <= b@.len(),
            strictly_increasing(times@),
            forall|x: u64| times@.contains(x) <==> (has_time(a@, x) || exists|k: int| 0 <= k < j && b@[k].time == x),
        decreases b@.len() - j,
    {
        insert_time(&mut times, b[j].time);
        proof {
            assert forall|x: u64| times@.contains(x) <==> (has_time(a@, x) || exists|k: int| 0 <= k < j + 1 && b@[k].time == x) by {
                if x == b@[j as int].time {
                    assert(0 <= j < j + 1 && b@[j as int].time == x);
                }
            }
        }
        j = j + 1;
    }
    times
}

/// `c` is the sum of the piecewise curves `a` and `b`: a step at each time
/// of either, in increasing order, holding the sum of their values there.
pub open spec fn is_sum_of(a: Seq<Step>, b: Seq<Step>, c: Seq<Step>) -> bool {
    &&& forall|i: int, j: int| 0 <= i < j < c.len() ==> c[i].time < c[j].time
    &&& forall|x: u64| has_time(c, x) <==> (has_time(a, x) || has_time(b, x))
    &&& forall|i: int| 0 <= i < c.len() ==> {
        &&& #[trigger] piecewise_value_spec(a, c[i].time) is Some
        &&& piecewise_value_spec(b, c[i].time) is Some
        &&& c[i].value == piecewise_value_spec(a, c[i].time).unwrap() + piecewise_value_spec(b, c[i].time).unwrap()
    }
}

/// Some time of `a` or `b` where a value cannot be computed or the sum exceeds `u128`.
pub open spec fn sum_fails(a: Seq<Step>, b: Seq<Step>) -> bool {
    exists|x: u64| {
        &&& (has_time(a, x) || has_time(b, x))
        &&& (piecewise_value_spec(a, x) is None || piecewise_value_spec(b, x) is None
            || piecewise_value_spec(a, x).unwrap() + piecewise_value_spec(b, x).unwrap() > u128::MAX)
    }
}

/// The piecewise curve that is the sum of `a` and `b`, or `None` where a
/// value at one of their times cannot be computed or the sum overflows.
pub fn combine_steps(a: &Vec<Step>, b: &Vec<Step>) -> (r: Option<Vec<Step>>)
    ensures
        r matches Some(c) ==> is_sum_of(a@, b@, c@),
        r is None ==> sum_fails(a@, b@),
{
    let times = union_times(a, b);
    let mut out: Vec<Step> = Vec::new();
    let mut i: usize = 0;
    while i < times.len()
        invariant
            0 <= i <= times@.len(),
            strictly_increasing(times@),
            forall|x: u64| times@.contains(x) <==> (has_time(a@, x) || has_time(b@, x)),
            out@.len() == i,
            forall|k: int| 0 <= k < i ==> (#[trigger] out@[k]).time == times@[k],
            forall|k: int| 0 <= k < i ==> {
                &&& #[trigger] piecewise_value_spec(a@, out@[k].time) is Some
                &&& piecewise_value_spec(b@, out@[k].time) is Some
                &&& out@[k].value == piecewise_value_spec(a@, out@[k].time).unwrap() + piecewise_value_spec(b@, out@[k].time).unwrap()
            },
        decreases times@.len() - i,
    {
        let t = times[i];
        assert(times@.contains(t));
        let va = steps_value(a, t);
        let vb = steps_value(b, t);
        let (va, vb) = match (va, vb) {
            (Some(x), Some(y)) => (x, y),
            _ => {
                assert(sum_fails(a@, b@));
                return None;
            },
        };
        let sum = match va.checked_add(vb) {
            Some(v) => v,
            None => {
                assert(sum_fails(a@, b@));
                return None;
            },
        };
        out.push(Step { time: t, value: sum });
        i = i + 1;
    }
    proof {
        assert forall|x: u64| has_time(out@, x) <==> (has_time(a@, x) || has_time(b@, x)) by {
            if has_time(out@, x) {
                let k = choose|k: int| 0 <= k < out@.len() && out@[k].time == x;
                assert(times@[k] == x);
                assert(times@.contains(x));
            }
            if has_time(a@, x) || has_time(b@, x) {
                assert(times@.contains(x));
                let k = choose|k: int| 0 <= k < times@.len() && times@[k] == x;
                assert(out@[k].time == x);
            }
        }
    }
    Some(out)
}

/// The steps through which a non-constant curve runs.
pub open spec fn steps_of(c: Curve) -> Seq<Step> {
    match c {
        Curve::Constant(_) => Seq::empty(),
        Curve::SaturatingLinear(s) => seq![Step { time: s.min_x, value: s.min_y }, Step { time: s.max_x, value: s.max_y }],
        Curve::PiecewiseLinear(p) => p.steps@,
    }
}

pub open spec fn some_value_overflows(steps: Seq<Step>, y: u128) -> bool {
    exists|i: int| 0 <= i < steps.len() && steps[i].value + y > u128::MAX
}

/// `r` is `c` moved up by `y`, or `None` where a value would exceed `u128`.
pub open spec fn shifted_by(c: Curve, y: u128, r: Option<Curve>) -> bool {
    match c {
        Curve::Constant(y0) => if y0 + y > u128::MAX {
            r is None
        } else {
            r == Some(Curve::Constant((y0 + y) as u128))
        },
        Curve::SaturatingLinear(s) => if s.min_y + y > u128::MAX || s.max_y + y > u128::MAX {
            r is None
        } else {
            r == Some(Curve::SaturatingLinear(SaturatingLinear {
                min_x: s.min_x,
                min_y: (s.min_y + y) as u128,
                max_x: s.max_x,
                max_y: (s.max_y + y) as u128,
            }))
        },
        Curve::PiecewiseLinear(p) => if some_value_overflows(p.steps@, y) {
            r is None
        } else {
            r matches Some(Curve::PiecewiseLinear(q)) && q.steps@.len() == p.steps@.len() && forall|i: int|
                0 <= i < p.steps@.len() ==> #[trigger] q.steps@[i] == (Step {
                    time: p.steps@[i].time,
                    value: (p.steps@[i].value + y) as u128,
                })
        },
    }
}

/// What combining two curves gives: constants add up, a constant shifts the
/// other curve, and any other pair becomes the piecewise sum of their steps.
pub open spec fn combined(a: Curve, b: Curve, r: Option<Curve>) -> bool {
    match (a, b) {
        (Curve::Constant(y1), Curve::Constant(y2)) => if y1 + y2 > u128::MAX {
            r is None
        } else {
            r == Some(Curve::Constant((y1 + y2) as u128))
        },
        (c, Curve::Constant(y)) => shifted_by(c, y, r),
        (Curve::Constant(y), c) => shifted_by(c, y, r),
        (c1, c2) => {
            &&& r matches Some(c) ==> (c matches Curve::PiecewiseLinear(q) && is_sum_of(steps_of(c1), steps_of(c2), q.steps@))
            &&& r is None ==> sum_fails(steps_of(c1), steps_of(c2))
        },
    }
}

/// The steps of a non-constant curve, as a vector.
fn steps_vec(c: &Curve) -> (r: Vec<Step>)
    ensures
        r@ == steps_of(*c),
{
    match c {
        Curve::Constant(_) => Vec::new(),
        Curve::SaturatingLinear(s) => {
            let mut v: Vec<Step> = Vec::new();
            v.push(Step { time: s.min_x, value: s.min_y });
            v.push(Step { time: s.max_x, value: s.max_y });
            v
        },
        Curve::PiecewiseLinear(p) => {
            let mut v: Vec<Step> = Vec::new();
            let mut i: usize = 0;
            while i < p.steps.len()
                invariant
                    0 <= i <= p.steps@.len(),
                    v@ == p.steps@.subrange(0, i as int),
                decreases p.steps@.len() - i,
            {
                v.push(p.steps[i]);
                i = i + 1;
            }
            assert(p.steps@.subrange(0, p.steps@.len() as int) == p.steps@);
            v
        },
    }
}

impl Curve {
    pub fn constant(y: u128) -> (r: Curve)
        ensures
            r == Curve::Constant(y),
    {
        Curve::Constant(y)
    }

    /// The saturating linear curve through `(min_x, min_y)` and `(max_x, max_y)`.
    pub fn saturating_linear(min: (u64, u128), max: (u64, u128)) -> (r: Curve)
        ensures
            r == Curve::SaturatingLinear(SaturatingLinear { min_x: min.0, min_y: min.1, max_x: max.0, max_y: max.1 }),
    {
        Curve::SaturatingLinear(SaturatingLinear { min_x: min.0, min_y: min.1, max_x: max.0, max_y: max.1 })
    }


    /// The curve moved up by `y`; `None` where a value would exceed `u128`.
    pub fn combine_const(&self, y: u128) -> (r: Option<Curve>)
        ensures
            shifted_by(*self, y, r),
    {
        match self {
            Curve::Constant(y0) => match y0.checked_add(y) {
                Some(v) => Some(Curve::Constant(v)),
                None => None,
            },
            Curve::SaturatingLinear(sl) => {
                let min_y = match sl.min_y.checked_add(y) {
                    Some(v) => v,
                    None => return None,
                };
                let max_y = match sl.max_y.checked_add(y) {
                    Some(v) => v,
                    None => return None,
                };
                Some(Curve::SaturatingLinear(SaturatingLinear { min_x: sl.min_x, min_y, max_x: sl.max_x, max_y }))
            },
            Curve::PiecewiseLinear(pl) => {
                let mut new_steps: Vec<Step> = Vec::new();
                let mut i: usize = 0;
                while i < pl.steps.len()
                    invariant
                        0 <= i <= pl.steps@.len(),
                        *self == Curve::PiecewiseLinear(*pl),
                        new_steps@.len() == i,
                        forall|k: int| 0 <= k < i ==> #[trigger] pl.steps@[k].value + y <= u128::MAX,
                        forall|k: int| 0 <= k < i ==> #[trigger] new_steps@[k] == (Step {
                            time: pl.steps@[k].time,
                            value: (pl.steps@[k].value + y) as u128,
                        }),
                    decreases pl.steps@.len() - i,
                {
                    let step = pl.steps[i];
                    let value = match step.value.checked_add(y) {
                        Some(v) => v,
                        None => {
                            assert(pl.steps@[i as int].value + y > u128::MAX);
                            assert(some_value_overflows(pl.steps@, y));
                            return None;
                        },
                    };
                    new_steps.push(Step { time: step.time, value });
                    i = i + 1;
                }
                Some(Curve::PiecewiseLinear(PiecewiseLinear { steps: new_steps }))
            },
        }
    }

    /// The sum of two curves; `None` where computing it would overflow.
    pub fn combine(&self, other: &Curve) -> (r: Option<Curve>)
        ensures
            combined(*self, *other, r),
    {
        match (self, other) {
            (Curve::Constant(y1), Curve::Constant(y2)) => match y1.checked_add(*y2) {
                Some(v) => Some(Curve::Constant(v)),
                None => None,
            },
            (_, Curve::Constant(y)) => self.combine_const(*y),
            (Curve::Constant(y), _) => other.combine_const(*y),
            _ => {
                let a = steps_vec(self);
                let b = steps_vec(other);
                match combine_steps(&a, &b) {
                    Some(steps) => Some(Curve::PiecewiseLinear(PiecewiseLinear { steps })),
                    None => None,
                }
            },
        }
    }

    /// The value at `x`, or `None` where computing it traps.
    pub fn checked_value(&self, x: u64) -> (r: Option<u128>)
        ensures
            r == opt_u128(curve_value_spec(*self, x)),
            curve_value_spec(*self, x) matches Some(v) ==> in_u128(v),
    {
        match self {
            Curve::Constant(y) => Some(*y),
            Curve::SaturatingLinear(s) => s.checked_value(x),
            Curve::PiecewiseLinear(p) => p.checked_value(x),
        }
    }

    /// The value at `x`.
    pub fn value(&self, x: u64) -> (r: u128)
        requires
            curve_value_spec(*self, x).is_some(),
        ensures
            r == curve_value_spec(*self, x).unwrap(),
    {
        match self.checked_value(x) {
            Some(v) => v,
            None => 0,
        }
    }

    /// The number of points that define the curve.
    pub fn size(&self) -> (r: u32)
        requires
            curve_size_spec(*self) <= u32::MAX,
        ensures
            r == curve_size_spec(*self),
    {
        match self {
            Curve::Constant(_) => 1,
            Curve::SaturatingLinear(_) => 2,
            Curve::PiecewiseLinear(p) => p.steps.len() as u32,
        }
    }

    /// Refuses a curve with more than `max` points.
    pub fn validate_complexity(&self, max: u32) -> (r: Result<(), CurveError>)
        ensures
            r == if curve_size_spec(*self) <= max { Ok(()) } else { Err(CurveError::TooComplex) },
    {
        let size: usize = match self {
            Curve::Constant(_) => 1,
            Curve::SaturatingLinear(_) => 2,
            Curve::PiecewiseLinear(p) => p.steps.len(),
        };
        if size <= max as usize {
            Ok(())
        } else {
            Err(CurveError::TooComplex)
        }
    }

    /// The lowest and highest value the curve takes; `None` for a piecewise
    /// curve without steps.
    pub fn range(&self) -> (r: Option<(u128, u128)>)
        ensures
            match *self {
                Curve::Constant(y) => r == Some((y, y)),
                Curve::SaturatingLinear(s) => r == Some(
                    if s.max_y > s.min_y { (s.min_y, s.max_y) } else { (s.max_y, s.min_y) },
                ),
                Curve::PiecewiseLinear(p) => (p.steps@.len() == 0 <==> r.is_none()) && (r matches Some((lo, hi)) ==> {
                    &&& (forall|i: int| 0 <= i < p.steps@.len() ==> lo <= #[trigger] p.steps@[i].value <= hi)
                    &&& (exists|i: int| 0 <= i < p.steps@.len() && p.steps@[i].value == lo)
                    &&& (exists|i: int| 0 <= i < p.steps@.len() && p.steps@[i].value == hi)
                }),
            },
    {
        match self {
            Curve::Constant(y) => Some((*y, *y)),
            Curve::SaturatingLinear(s) => Some(s.range()),
            Curve::PiecewiseLinear(p) => p.range(),
        }
    }

    /// The time from which the curve stays flat: `None` for a constant.
    pub fn end(&self) -> (r: Option<u64>)
        ensures
            r == curve_end_spec(*self),
    {
        match self {
            Curve::Constant(_) => None,
            Curve::SaturatingLinear(s) => Some(s.max_x),
            Curve::PiecewiseLinear(p) => {
                let n = p.steps.len();
                if n == 0 {
                    None
                } else {
                    Some(p.steps[n - 1].time)
                }
            },
        }
    }

    pub fn validate_monotonic_increasing(&self) -> (r: Result<(), CurveError>)
        ensures
            match *self {
                Curve::Constant(_) => r == Ok::<(), CurveError>(()),
                Curve::SaturatingLinear(s) => r == (if s.max_x <= s.min_x {
                    Err(CurveError::PointsOutOfOrder)
                } else if s.max_y < s.min_y {
                    Err(CurveError::NotMonotonic)
                } else {
                    Ok(())
                }),
                Curve::PiecewiseLinear(p) => r == match piecewise_validate_spec(p.steps@) {
                    Err(e) => Err(e),
                    Ok(()) => if values_increasing(p.steps@) { Ok(()) } else { Err(CurveError::NotMonotonic) },
                },
            },
    {
        match self {
            Curve::Constant(_) => Ok(()),
            Curve::SaturatingLinear(s) => s.validate_monotonic_increasing(),
            Curve::PiecewiseLinear(p) => p.validate_monotonic_increasing(),
        }
    }

    pub fn validate_monotonic_decreasing(&self) -> (r: Result<(), CurveError>)
        ensures
            match *self {
                Curve::Constant(_) => r == Ok::<(), CurveError>(()),
                Curve::SaturatingLinear(s) => r == (if s.max_x <= s.min_x {
                    Err(CurveError::PointsOutOfOrder)
                } else if s.max_y > s.min_y {
                    Err(CurveError::NotMonotonic)
                } else {
                    Ok(())
                }),
                Curve::PiecewiseLinear(p) => r == match piecewise_validate_spec(p.steps@) {
                    Err(e) => Err(e),
                    Ok(()) => if values_decreasing(p.steps@) { Ok(()) } else { Err(CurveError::NotMonotonic) },
                },
            },
    {
        match self {
            Curve::Constant(_) => Ok(()),
            Curve::SaturatingLinear(s) => s.validate_monotonic_decreasing(),
            Curve::PiecewiseLinear(p) => p.validate_monotonic_decreasing(),
        }
    }
}

/// A value interpolated between two points lies between their values.
proof fn lemma_interpolate_between(x0: u64, y0: u128, x1: u64, y1: u128, x: u64)
    requires
        interpolate_spec(x0, y0, x1, y1, x) is Some,
        x <= x1,
    ensures
        ({
            let v = interpolate_spec(x0, y0, x1, y1, x).unwrap();
            &&& (y0 <= y1 ==> y0 <= v <= y1)
            &&& (y1 <= y0 ==> y1 <= v <= y0)
        }),
{
    let dx: int = x - x0;
    let range: int = x1 - x0;
    let dy: int = if y1 > y0 { y1 - y0 } else { y0 - y1 };
    assert(0 <= dx <= range && range > 0);
    assert(0 <= dy * dx <= dy * range) by (nonlinear_arith)
        requires 0 <= dx <= range, dy >= 0;
    vstd::arithmetic::div_mod::lemma_div_is_ordered(dy * dx, dy * range, range);
    vstd::arithmetic::div_mod::lemma_div_by_multiple(dy, range);
    vstd::arithmetic::div_mod::lemma_div_pos_is_pos(dy * dx, range);
}

/// Scanning from `j` and moving past it means the step before the result
/// lies before `x`.
proof fn lemma_scan_passes(steps: Seq<Step>, j: nat, x: u64)
    requires
        j < steps.len(),
    ensures
        j <= scan_from(steps, j, x) < steps.len(),
        scan_from(steps, j, x) > j ==> steps[scan_from(steps, j, x) - 1].time < x,
    decreases steps.len() - j,
{
    if j + 1 < steps.len() && x > steps[j as int].time {
        lemma_scan_passes(steps, j + 1, x);
    }
}

/// A curve never leaves the range of the values that define it: a
/// saturating linear curve stays between its two values, and a piecewise
/// linear curve between any bounds of its steps' values.
pub proof fn lemma_value_within_range(c: Curve, x: u64, lo: int, hi: int)
    requires
        curve_value_spec(c, x) is Some,
        match c {
            Curve::Constant(y) => lo <= y <= hi,
            Curve::SaturatingLinear(s) => lo <= s.min_y <= hi && lo <= s.max_y <= hi,
            Curve::PiecewiseLinear(p) => forall|i: int| 0 <= i < p.steps@.len() ==> lo <= #[trigger] p.steps@[i].value <= hi,
        },
    ensures
        lo <= curve_value_spec(c, x).unwrap() <= hi,
{
    match c {
        Curve::Constant(_) => {},
        Curve::SaturatingLinear(s) => {
            if s.min_x <= x <= s.max_x {
                lemma_interpolate_between(s.min_x, s.min_y, s.max_x, s.max_y, x);
            }
        },
        Curve::PiecewiseLinear(p) => {
            let steps = p.steps@;
            lemma_scan_passes(steps, 0, x);
            let j = scan_from(steps, 0, x) as int;
            assert(lo <= steps[j].value <= hi);
            if j > 0 {
                assert(lo <= steps[j - 1].value <= hi);
                if x != steps[j - 1].time && x < steps[j].time {
                    lemma_interpolate_between(steps[j - 1].time, steps[j - 1].value, steps[j].time, steps[j].value, x);
                }
            }
        },
    }
}

} // verus!
