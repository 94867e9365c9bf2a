//! Control-profile settings of a managed fan and sensor aggregation.
//!
//! Floating-point settings (gains, percentages, clamp limits) are carried as
//! IEEE-754 bit patterns; see `fbits`.

use vstd::prelude::*;

use crate::fbits;
use vstd::relations::{sorted_by, total_ordering};

verus! {

/// How several temperature readings combine into one control input.
#[derive(Clone, Copy, Debug, PartialEq, Eq, Structural)]
pub enum AggregationFn {
    Average,
    Max,
    Min,
    Median,
}

impl View for AggregationFn {
    type V = AggregationFn;

    open spec fn view(&self) -> AggregationFn {
        *self
    }
}

impl DeepView for AggregationFn {
    type V = AggregationFn;

    open spec fn deep_view(&self) -> AggregationFn {
        *self
    }
}

impl Default for AggregationFn {
    fn default() -> (r: Self)
        ensures
            r == AggregationFn::Average,
    {
        AggregationFn::Average
    }
}

/// PID gains, each the bit pattern of an `f64`.
#[derive(Clone, Copy, Debug, PartialEq, Eq, Structural)]
pub struct PidGains {
    pub kp: u64,
    pub ki: u64,
    pub kd: u64,
}

/// Bit patterns of the default gains 1.0, 0.1 and 0.5.
pub open spec fn default_pid_gains() -> PidGains {
    PidGains { kp: 0x3ff0_0000_0000_0000, ki: 0x3fb9_9999_9999_999a, kd: 0x3fe0_0000_0000_0000 }
}

impl Default for PidGains {
    fn default() -> (r: Self)
        ensures
            r == default_pid_gains(),
    {
        PidGains { kp: 0x3ff0_0000_0000_0000, ki: 0x3fb9_9999_9999_999a, kd: 0x3fe0_0000_0000_0000 }
    }
}

impl PidGains {
    pub open spec fn spec_is_finite(self) -> bool {
        fbits::spec_is_finite(self.kp) && fbits::spec_is_finite(self.ki) && fbits::spec_is_finite(
            self.kd,
        )
    }

    /// Whether all three gains are finite.
    pub fn is_finite(&self) -> (r: bool)
        ensures
            r == self.spec_is_finite(),
    {
        fbits::is_finite(self.kp) && fbits::is_finite(self.ki) && fbits::is_finite(self.kd)
    }
}

/// Sampling, control and write intervals of a fan's control loop.
#[derive(Clone, Copy, Debug, PartialEq, Eq, Structural)]
pub struct ControlCadence {
    pub sample_interval_ms: u64,
    pub control_interval_ms: u64,
    pub write_interval_ms: u64,
}

pub open spec fn default_cadence() -> ControlCadence {
    ControlCadence { sample_interval_ms: 1_000, control_interval_ms: 2_000, write_interval_ms: 2_000 }
}

impl Default for ControlCadence {
    fn default() -> (r: Self)
        ensures
            r == default_cadence(),
    {
        ControlCadence { sample_interval_ms: 1_000, control_interval_ms: 2_000, write_interval_ms: 2_000 }
    }
}

/// Mapping of the logical output percentage onto the PWM range; the
/// percentages are `f64` bit patterns.
#[derive(Clone, Copy, Debug, PartialEq, Eq, Structural)]
pub struct ActuatorPolicy {
    pub output_min_percent: u64,
    pub output_max_percent: u64,
    pub pwm_min: u16,
    pub pwm_max: u16,
    pub startup_kick_percent: u64,
    pub startup_kick_ms: u64,
}

/// Bit patterns of 0.0, 100.0 and 35.0, with PWM 0..=255 and a 1500 ms kick.
pub open spec fn default_actuator_policy() -> ActuatorPolicy {
    ActuatorPolicy {
        output_min_percent: 0,
        output_max_percent: 0x4059_0000_0000_0000,
        pwm_min: 0,
        pwm_max: 255,
        startup_kick_percent: 0x4041_8000_0000_0000,
        startup_kick_ms: 1_500,
    }
}

impl Default for ActuatorPolicy {
    fn default() -> (r: Self)
        ensures
            r == default_actuator_policy(),
    {
        ActuatorPolicy {
            output_min_percent: 0,
            output_max_percent: 0x4059_0000_0000_0000,
            pwm_min: 0,
            pwm_max: 255,
            startup_kick_percent: 0x4041_8000_0000_0000,
            startup_kick_ms: 1_500,
        }
    }
}

/// Clamp limits of the PID integral and derivative terms (`f64` bit patterns).
#[derive(Clone, Copy, Debug, PartialEq, Eq, Structural)]
pub struct PidLimits {
    pub integral_min: u64,
    pub integral_max: u64,
    pub derivative_min: u64,
    pub derivative_max: u64,
}

/// Bit patterns of -100.0, 100.0, -50.0 and 50.0.
pub open spec fn default_pid_limits() -> PidLimits {
    PidLimits {
        integral_min: 0xc059_0000_0000_0000,
        integral_max: 0x4059_0000_0000_0000,
        derivative_min: 0xc049_0000_0000_0000,
        derivative_max: 0x4049_0000_0000_0000,
    }
}

impl Default for PidLimits {
    fn default() -> (r: Self)
        ensures
            r == default_pid_limits(),
    {
        PidLimits {
            integral_min: 0xc059_0000_0000_0000,
            integral_max: 0x4059_0000_0000_0000,
            derivative_min: 0xc049_0000_0000_0000,
            derivative_max: 0x4049_0000_0000_0000,
        }
    }
}

impl PidLimits {
    pub open spec fn spec_is_finite(self) -> bool {
        &&& fbits::spec_is_finite(self.integral_min)
        &&& fbits::spec_is_finite(self.integral_max)
        &&& fbits::spec_is_finite(self.derivative_min)
        &&& fbits::spec_is_finite(self.derivative_max)
    }

    /// Whether all four limits are finite.
    pub fn is_finite(&self) -> (r: bool)
        ensures
            r == self.spec_is_finite(),
    {
        fbits::is_finite(self.integral_min) && fbits::is_finite(self.integral_max)
            && fbits::is_finite(self.derivative_min) && fbits::is_finite(self.derivative_max)
    }
}


/// The order readings are sorted by.
pub open spec fn reading_le() -> spec_fn(i64, i64) -> bool {
    |a: i64, b: i64| a <= b
}

/// Sum of readings.
pub open spec fn sum_of(s: Seq<i64>) -> int
    decreases s.len(),
{
    if s.len() == 0 {
        0
    } else {
        sum_of(s.drop_last()) + s.last()
    }
}

/// Largest reading.
pub open spec fn max_of(s: Seq<i64>) -> i64
    decreases s.len(),
{
    if s.len() <= 1 {
        s[0]
    } else if s.last() > max_of(s.drop_last()) {
        s.last()
    } else {
        max_of(s.drop_last())
    }
}

/// Smallest reading.
pub open spec fn min_of(s: Seq<i64>) -> i64
    decreases s.len(),
{
    if s.len() <= 1 {
        s[0]
    } else if s.last() < min_of(s.drop_last()) {
        s.last()
    } else {
        min_of(s.drop_last())
    }
}

/// Integer division rounding toward zero (Rust's `/` on signed integers).
pub open spec fn trunc_div(a: int, b: int) -> int {
    if a >= 0 {
        a / b
    } else {
        -((-a) / b)
    }
}

/// Whether a value fits in an `i64`.
pub open spec fn fits_i64(x: int) -> bool {
    i64::MIN <= x <= i64::MAX
}

/// Every partial sum of the readings fits in an `i64` (summing them does
/// not overflow).
pub open spec fn sums_fit(s: Seq<i64>) -> bool {
    forall|k: int| 0 <= k <= s.len() ==> fits_i64(#[trigger] sum_of(s.take(k)))
}

/// The readings in ascending order.
pub open spec fn sorted_readings(s: Seq<i64>) -> Seq<i64> {
    s.sort_by(reading_le())
}

/// The median: the middle sorted reading, or the two middle ones averaged
/// toward zero.
pub open spec fn median_of(s: Seq<i64>) -> int {
    let t = sorted_readings(s);
    let mid = s.len() / 2;
    if s.len() % 2 == 0 {
        trunc_div(t[mid as int - 1] + t[mid as int], 2)
    } else {
        t[mid as int] as int
    }
}

/// The aggregated value of non-empty readings.
pub open spec fn aggregate(f: AggregationFn, s: Seq<i64>) -> int {
    match f {
        AggregationFn::Average => trunc_div(sum_of(s), s.len() as int),
        AggregationFn::Max => max_of(s) as int,
        AggregationFn::Min => min_of(s) as int,
        AggregationFn::Median => median_of(s),
    }
}

/// Whether aggregating the readings stays within `i64` (the sum for an
/// average, the two middle readings for an even median).
pub open spec fn aggregation_fits(f: AggregationFn, s: Seq<i64>) -> bool {
    match f {
        AggregationFn::Average => sums_fit(s),
        AggregationFn::Median => s.len() % 2 == 0 && s.len() > 0 ==> fits_i64(
            sorted_readings(s)[(s.len() / 2) as int - 1] + sorted_readings(s)[(s.len() / 2) as int],
        ),
        _ => true,
    }
}

proof fn lemma_reading_le_total()
    ensures
        total_ordering(reading_le()),
{
}

/// The readings of `v`, sorted ascending.
fn sort_readings(v: &[i64]) -> (r: Vec<i64>)
    ensures
        r@ == sorted_readings(v@),
{
    broadcast use vstd::seq_lib::group_to_multiset_ensures;

    let ghost src = v@;
    let mut r: Vec<i64> = Vec::new();
    let mut i: usize = 0;
    assert(src.take(0) =~= Seq::<i64>::empty());
    while i < v.len()
        invariant
            src == v@,
            i <= src.len(),
            sorted_by(r@, reading_le()),
            r@.to_multiset() == src.take(i as int).to_multiset(),
        decreases v.len() - i,
    {
        let x = v[i];
        let ghost rv = r@;
        let mut p: usize = 0;
        while p < r.len() && r[p] <= x
            invariant
                rv == r@,
                p <= rv.len(),
                forall|q: int| 0 <= q < p ==> rv[q] <= x,
            decreases r.len() - p,
        {
            p = p + 1;
        }
        r.insert(p, x);
        assert(r@ =~= rv.insert(p as int, x));
        assert(sorted_by(r@, reading_le())) by {
            assert forall|a: int, b: int| 0 <= a < b < r@.len() implies #[trigger] (reading_le())(r@[a], r@[b]) by {
                assert((reading_le())(rv[0], rv[0]) || true);
                if a < p && b < p {
                    assert((reading_le())(rv[a], rv[b]));
                } else if a < p && b == p {
                } else if a < p && b > p {
                    assert((reading_le())(rv[p as int], rv[b - 1]));
                } else if a == p {
                    assert((reading_le())(rv[p as int], rv[b - 1]));
                } else {
                    assert((reading_le())(rv[a - 1], rv[b - 1]));
                }
            }
        }
        assert(src.take(i + 1) =~= src.take(i as int).push(src[i as int]));
        proof {
            vstd::seq_lib::to_multiset_insert(rv, p as int, x);
            vstd::seq_lib::to_multiset_build(src.take(i as int), src[i as int]);
        }
        i = i + 1;
    }
    assert(src.take(i as int) =~= src);
    proof {
        lemma_reading_le_total();
        src.lemma_sort_by_ensures(reading_le());
        vstd::seq_lib::lemma_sorted_unique(r@, sorted_readings(src), reading_le());
    }
    r
}

impl AggregationFn {
    /// Whether aggregating `readings` this way stays within `i64`: every
    /// partial sum for an average, the two middle readings' sum for a median
    /// of an even count; always for max and min.
    pub fn fits(&self, readings: &[i64]) -> (r: bool)
        ensures
            r == aggregation_fits(*self, readings@),
    {
        match self {
            AggregationFn::Average => {
                let n = readings.len();
                let mut sum: i128 = 0;
                let mut i: usize = 0;
                assert(readings@.take(0) =~= Seq::<i64>::empty());
                while i < n
                    invariant
                        *self == AggregationFn::Average,
                        n == readings@.len(),
                        i <= n,
                        sum == sum_of(readings@.take(i as int)),
                        forall|k: int| 0 <= k <= i ==> fits_i64(#[trigger] sum_of(readings@.take(k))),
                    decreases n - i,
                {
                    assert(readings@.take(i + 1).drop_last() =~= readings@.take(i as int));
                    sum = sum + readings[i] as i128;
                    if sum < i64::MIN as i128 || sum > i64::MAX as i128 {
                        assert(!fits_i64(sum_of(readings@.take(i + 1))));
                        assert(!sums_fit(readings@));
                        return false;
                    }
                    i = i + 1;
                }
                assert(readings@.take(n as int) =~= readings@);
                true
            },
            AggregationFn::Median => {
                let n = readings.len();
                if n % 2 == 0 && n > 0 {
                    let sorted = sort_readings(readings);
                    proof {
                        broadcast use vstd::seq_lib::group_to_multiset_ensures;

                        lemma_reading_le_total();
                        readings@.lemma_sort_by_ensures(reading_le());
                        assert(sorted@.len() == sorted@.to_multiset().len());
                        assert(readings@.len() == readings@.to_multiset().len());
                    }
                    let mid = n / 2;
                    let m: i128 = sorted[mid - 1] as i128 + sorted[mid] as i128;
                    m >= i64::MIN as i128 && m <= i64::MAX as i128
                } else {
                    true
                }
            },
            AggregationFn::Max => true,
            AggregationFn::Min => true,
        }
    }

    /// Combines temperature readings: average (rounded toward zero), max,
    /// min or median. `None` when there is no reading.
    pub fn compute_millidegrees(&self, readings: &[i64]) -> (r: Option<i64>)
        requires
            readings@.len() <= i64::MAX,
            aggregation_fits(*self, readings@),
        ensures
            readings@.len() == 0 ==> r is None,
            readings@.len() > 0 ==> r == Some(aggregate(*self, readings@) as i64) && fits_i64(
                aggregate(*self, readings@),
            ),
    {
        let n = readings.len();
        if n == 0 {
            return None;
        }
        match self {
            AggregationFn::Average => {
                let mut sum: i64 = 0;
                let mut i: usize = 0;
                while i < n
                    invariant
                        n == readings@.len(),
                        i <= n,
                        sums_fit(readings@),
                        sum == sum_of(readings@.take(i as int)),
                    decreases n - i,
                {
                    assert(readings@.take(i + 1).drop_last() =~= readings@.take(i as int));
                    assert(fits_i64(sum_of(readings@.take(i + 1))));
                    sum = sum + readings[i];
                    i = i + 1;
                }
                assert(readings@.take(n as int) =~= readings@);
                let avg = sum / (n as i64);
                proof {
                    assert(avg as int == trunc_div(sum as int, n as int)) by (nonlinear_arith)
                        requires
                            n > 0,
                            sum >= 0 ==> avg as int == (sum as int) / (n as int),
                            sum < 0 ==> avg as int == -((-(sum as int)) / (n as int)),
                    {
                    }
                }
                Some(avg)
            },
            AggregationFn::Max => {
                let mut best = readings[0];
                let mut i: usize = 1;
                while i < n
                    invariant
                        n == readings@.len(),
                        1 <= i <= n,
                        best == max_of(readings@.take(i as int)),
                    decreases n - i,
                {
                    assert(readings@.take(i + 1).drop_last() =~= readings@.take(i as int));
                    if readings[i] > best {
                        best = readings[i];
                    }
                    i = i + 1;
                }
                assert(readings@.take(n as int) =~= readings@);
                Some(best)
            },
            AggregationFn::Min => {
                let mut best = readings[0];
                let mut i: usize = 1;
                while i < n
                    invariant
                        n == readings@.len(),
                        1 <= i <= n,
                        best == min_of(readings@.take(i as int)),
                    decreases n - i,
                {
                    assert(readings@.take(i + 1).drop_last() =~= readings@.take(i as int));
                    if readings[i] < best {
                        best = readings[i];
                    }
                    i = i + 1;
                }
                assert(readings@.take(n as int) =~= readings@);
                Some(best)
            },
            AggregationFn::Median => {
                let sorted = sort_readings(readings);
                assert(sorted@.len() == n) by {
                    lemma_reading_le_total();
                    readings@.lemma_sort_by_ensures(reading_le());
                    vstd::seq_lib::to_multiset_len(readings@);
                    vstd::seq_lib::to_multiset_len(sorted@);
                }
                let mid = n / 2;
                if n % 2 == 0 {
                    let two = sorted[mid - 1] + sorted[mid];
                    let med = two / 2;
                    proof {
                        assert(med as int == trunc_div(two as int, 2)) by (nonlinear_arith)
                            requires
                                two >= 0 ==> med as int == (two as int) / 2,
                                two < 0 ==> med as int == -((-(two as int)) / 2),
                        {
                        }
                    }
                    Some(med)
                } else {
                    Some(sorted[mid])
                }
            },
        }
    }
}

/// Every reading lies between the smallest and the largest, and both are
/// readings.
proof fn lemma_min_max_bound(s: Seq<i64>)
    requires
        s.len() > 0,
    ensures
        forall|i: int| 0 <= i < s.len() ==> min_of(s) <= #[trigger] s[i] <= max_of(s),
        s.contains(min_of(s)),
        s.contains(max_of(s)),
    decreases s.len(),
{
    if s.len() > 1 {
        let d = s.drop_last();
        lemma_min_max_bound(d);
        assert forall|i: int| 0 <= i < s.len() implies min_of(s) <= #[trigger] s[i] <= max_of(s) by {
            if i < s.len() - 1 {
                assert(s[i] == d[i]);
            }
        }
        let a = choose|k: int| 0 <= k < d.len() && d[k] == min_of(d);
        let b = choose|k: int| 0 <= k < d.len() && d[k] == max_of(d);
        assert(s[a] == d[a]);
        assert(s[b] == d[b]);
        assert(s[s.len() - 1] == s.last());
    } else {
        assert(s[0] == min_of(s));
    }
}

/// The sum of `n` readings lies between `n` times the smallest and `n`
/// times the largest.
proof fn lemma_sum_bounds(s: Seq<i64>, lo: int, hi: int)
    requires
        forall|i: int| 0 <= i < s.len() ==> lo <= #[trigger] s[i] <= hi,
    ensures
        s.len() * lo <= sum_of(s) <= s.len() * hi,
    decreases s.len(),
{
    if s.len() > 0 {
        let d = s.drop_last();
        assert forall|i: int| 0 <= i < d.len() implies lo <= #[trigger] d[i] <= hi by {
            assert(d[i] == s[i]);
        }
        lemma_sum_bounds(d, lo, hi);
        assert(s.last() == s[s.len() - 1]);
        assert(s.len() * lo == d.len() * lo + lo) by (nonlinear_arith)
            requires
                s.len() == d.len() + 1,
        ;
        assert(s.len() * hi == d.len() * hi + hi) by (nonlinear_arith)
            requires
                s.len() == d.len() + 1,
        ;
    }
}

/// A quotient rounded toward zero stays within the bounds of the mean.
proof fn lemma_trunc_div_bounds(a: int, n: int, lo: int, hi: int)
    requires
        n > 0,
        n * lo <= a <= n * hi,
    ensures
        lo <= trunc_div(a, n) <= hi,
{
    broadcast use vstd::arithmetic::div_mod::lemma_div_is_ordered;
    broadcast use vstd::arithmetic::div_mod::lemma_div_multiples_vanish;

    if a >= 0 {
        assert((n * lo) / n <= a / n);
        assert(a / n <= (n * hi) / n);
    } else {
        assert(n * (-hi) == -(n * hi)) by (nonlinear_arith);
        assert(n * (-lo) == -(n * lo)) by (nonlinear_arith);
        assert((n * (-hi)) / n <= (-a) / n);
        assert((-a) / n <= (n * (-lo)) / n);
    }
}

/// Removing one reading takes it off the sum.
proof fn lemma_sum_remove(s: Seq<i64>, j: int)
    requires
        0 <= j < s.len(),
    ensures
        sum_of(s) == sum_of(s.remove(j)) + s[j],
    decreases s.len(),
{
    if j == s.len() - 1 {
        assert(s.remove(j) =~= s.drop_last());
    } else {
        let d = s.drop_last();
        lemma_sum_remove(d, j);
        assert(s.remove(j).drop_last() =~= d.remove(j));
        assert(s.remove(j).last() == s.last());
        assert(d[j] == s[j]);
    }
}

/// Reordering the readings keeps their sum, smallest, largest and sorted
/// order.
proof fn lemma_permutation_invariants(s: Seq<i64>, u: Seq<i64>)
    requires
        s.to_multiset() == u.to_multiset(),
    ensures
        s.len() == u.len(),
        sum_of(s) == sum_of(u),
        sorted_readings(s) == sorted_readings(u),
        s.len() > 0 ==> max_of(s) == max_of(u) && min_of(s) == min_of(u),
    decreases s.len(),
{
    broadcast use vstd::seq_lib::group_to_multiset_ensures;
    broadcast use vstd::multiset::group_multiset_axioms;

    assert(s.to_multiset().len() == s.len());
    assert(u.to_multiset().len() == u.len());
    if s.len() > 0 {
        let x = s.last();
        let d = s.drop_last();
        assert(s =~= d.push(x));
        assert(s.to_multiset().count(x) > 0);
        assert(u.contains(x));
        let j = choose|k: int| 0 <= k < u.len() && u[k] == x;
        assert(u.remove(j).to_multiset() =~= u.to_multiset().remove(x));
        assert(d.to_multiset() =~= s.to_multiset().remove(x));
        lemma_permutation_invariants(d, u.remove(j));
        lemma_sum_remove(u, j);
        lemma_min_max_bound(s);
        lemma_min_max_bound(u);
        let ms = max_of(s);
        let mu = max_of(u);
        assert(s.to_multiset().count(ms) > 0);
        assert(u.to_multiset().count(mu) > 0);
        let a = choose|k: int| 0 <= k < u.len() && u[k] == ms;
        let b = choose|k: int| 0 <= k < s.len() && s[k] == mu;
        let ns = min_of(s);
        let nu = min_of(u);
        assert(s.to_multiset().count(ns) > 0);
        assert(u.to_multiset().count(nu) > 0);
        let c = choose|k: int| 0 <= k < u.len() && u[k] == ns;
        let e = choose|k: int| 0 <= k < s.len() && s[k] == nu;
        assert(u[a] <= mu && s[b] <= ms && u[c] >= nu && s[e] >= ns);
    }
    lemma_reading_le_total();
    s.lemma_sort_by_ensures(reading_le());
    u.lemma_sort_by_ensures(reading_le());
    vstd::seq_lib::lemma_sorted_unique(sorted_readings(s), sorted_readings(u), reading_le());
}

/// Aggregation law: the aggregate of non-empty readings lies between the
/// smallest and the largest reading, max and min give exactly those, and
/// reordering the readings does not change the aggregate.
pub proof fn law_aggregate_bounded_and_order_free(f: AggregationFn, s: Seq<i64>, u: Seq<i64>)
    requires
        s.len() > 0,
        s.to_multiset() == u.to_multiset(),
    ensures
        min_of(s) <= aggregate(f, s) <= max_of(s),
        f == AggregationFn::Max ==> aggregate(f, s) == max_of(s),
        f == AggregationFn::Min ==> aggregate(f, s) == min_of(s),
        aggregate(f, s) == aggregate(f, u),
{
    broadcast use vstd::seq_lib::group_to_multiset_ensures;

    lemma_min_max_bound(s);
    lemma_permutation_invariants(s, u);
    let lo = min_of(s) as int;
    let hi = max_of(s) as int;
    match f {
        AggregationFn::Average => {
            lemma_sum_bounds(s, lo, hi);
            lemma_trunc_div_bounds(sum_of(s), s.len() as int, lo, hi);
        },
        AggregationFn::Median => {
            let t = sorted_readings(s);
            lemma_reading_le_total();
            s.lemma_sort_by_ensures(reading_le());
            assert forall|i: int| 0 <= i < t.len() implies lo <= #[trigger] t[i] <= hi by {
                assert(t.to_multiset().count(t[i]) > 0);
                assert(s.contains(t[i]));
                let k = choose|k: int| 0 <= k < s.len() && s[k] == t[i];
                assert(s[k] == t[i]);
            }
            assert(t.to_multiset().len() == t.len());
            assert(s.to_multiset().len() == s.len());
            let mid = (s.len() / 2) as int;
            if s.len() % 2 == 0 {
                assert(t[mid - 1] + t[mid] <= 2 * hi && 2 * lo <= t[mid - 1] + t[mid]);
                lemma_trunc_div_bounds(t[mid - 1] + t[mid], 2, lo, hi);
            } else {
                assert(lo <= t[mid] <= hi);
            }
        },
        _ => {},
    }
}

/// Any two readings at different positions add up within `i64`.
pub open spec fn pairwise_sums_fit(s: Seq<i64>) -> bool {
    forall|i: int, j: int| 0 <= i < s.len() && 0 <= j < s.len() && i != j ==> fits_i64(#[trigger] s[i] + #[trigger] s[j])
}

/// Two different positions of the sorted readings hold readings of two
/// different positions of the readings.
proof fn lemma_sorted_pair_from_distinct_positions(s: Seq<i64>, a: int, b: int)
    requires
        0 <= a < b < s.len(),
    ensures
        exists|i: int, j: int|
            0 <= i < s.len() && 0 <= j < s.len() && i != j && s[i] == sorted_readings(s)[a] && s[j]
                == sorted_readings(s)[b],
{
    broadcast use vstd::seq_lib::group_to_multiset_ensures;
    broadcast use vstd::multiset::group_multiset_axioms;

    let t = sorted_readings(s);
    lemma_reading_le_total();
    s.lemma_sort_by_ensures(reading_le());
    assert(t.to_multiset().len() == t.len());
    assert(s.to_multiset().len() == s.len());
    let x = t[a];
    let y = t[b];
    assert(t.to_multiset().count(x) > 0);
    assert(s.contains(x));
    let i = choose|i: int| 0 <= i < s.len() && s[i] == x;
    assert(s[i] == x);
    let tr = t.remove(a);
    let sr = s.remove(i);
    assert(tr.to_multiset() =~= t.to_multiset().remove(x));
    assert(sr.to_multiset() =~= s.to_multiset().remove(x));
    assert(tr[b - 1] == y);
    assert(tr.to_multiset().count(y) > 0);
    assert(sr.contains(y));
    let jj = choose|jj: int| 0 <= jj < sr.len() && sr[jj] == y;
    let j = if jj < i { jj } else { jj + 1 };
    assert(s[j] == sr[jj]);
    assert(i != j);
}

/// Aggregation law for the value that is computed: on non-empty readings
/// whose aggregation does not overflow (for a median, any two readings add up
/// within `i64`; for an average, every running sum of the readings in the
/// order given fits), `compute_millidegrees` can aggregate the readings and
/// any reordering of them; the value lies between the smallest and the
/// largest reading, is exactly those for max and min, and is the same for
/// every reordering.
pub proof fn law_computed_aggregate_bounded_and_order_free(f: AggregationFn, s: Seq<i64>, u: Seq<i64>)
    requires
        s.len() > 0,
        s.to_multiset() == u.to_multiset(),
        f == AggregationFn::Median ==> pairwise_sums_fit(s),
        f == AggregationFn::Average ==> sums_fit(s) && sums_fit(u),
    ensures
        aggregation_fits(f, s),
        aggregation_fits(f, u),
        fits_i64(aggregate(f, s)),
        min_of(s) <= aggregate(f, s) <= max_of(s),
        f == AggregationFn::Max ==> aggregate(f, s) == max_of(s),
        f == AggregationFn::Min ==> aggregate(f, s) == min_of(s),
        aggregate(f, s) == aggregate(f, u),
{
    law_aggregate_bounded_and_order_free(f, s, u);
    lemma_permutation_invariants(s, u);
    if f == AggregationFn::Median && s.len() % 2 == 0 {
        let mid = (s.len() / 2) as int;
        lemma_sorted_pair_from_distinct_positions(s, mid - 1, mid);
        let t = sorted_readings(s);
        let (i, j) = choose|i: int, j: int|
            0 <= i < s.len() && 0 <= j < s.len() && i != j && s[i] == t[mid - 1] && s[j] == t[mid];
        assert(fits_i64(s[i] + s[j]));
    }
}

} // verus!
