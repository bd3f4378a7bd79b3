//! Gene values, their ranges, and the arithmetic on gene sequences.

use vstd::prelude::*;
use crate::fraction::Fraction;

verus! {

/// An inclusive range of gene values, `start ..= end`.
#[derive(Clone, Copy, Debug, PartialEq, Eq, Structural)]
pub struct GeneRange {
    pub start: i32,
    pub end: i32,
}

/// Smallest tilt angle that a command may hold, in degrees.
pub const ANGLE_MIN: i32 = -90;

/// Largest tilt angle that a command may hold, in degrees.
pub const ANGLE_MAX: i32 = 90;

/// Smallest thrust level that a command may hold.
pub const THRUST_MIN: i32 = 0;

/// Largest thrust level that a command may hold.
pub const THRUST_MAX: i32 = 4;

/// Largest change of the tilt angle that one tick may bring, in degrees.
pub const ANGLE_STEP: i32 = 15;

/// Largest change of the thrust level that one tick may bring.
pub const THRUST_STEP: i32 = 1;

/// The tilt angles that a command may hold.
pub open spec fn angle_range_spec() -> GeneRange {
    GeneRange { start: ANGLE_MIN, end: ANGLE_MAX }
}

/// The thrust levels that a command may hold.
pub open spec fn thrust_range_spec() -> GeneRange {
    GeneRange { start: THRUST_MIN, end: THRUST_MAX }
}

/// The changes of the tilt angle that one tick may bring.
pub open spec fn angle_step_range_spec() -> GeneRange {
    GeneRange { start: (-ANGLE_STEP) as i32, end: ANGLE_STEP }
}

/// The changes of the thrust level that one tick may bring.
pub open spec fn thrust_step_range_spec() -> GeneRange {
    GeneRange { start: (-THRUST_STEP) as i32, end: THRUST_STEP }
}

#[verifier::when_used_as_spec(angle_range_spec)]
pub fn angle_range() -> (r: GeneRange)
    ensures
        r == angle_range_spec(),
{
    GeneRange { start: ANGLE_MIN, end: ANGLE_MAX }
}

#[verifier::when_used_as_spec(thrust_range_spec)]
pub fn thrust_range() -> (r: GeneRange)
    ensures
        r == thrust_range_spec(),
{
    GeneRange { start: THRUST_MIN, end: THRUST_MAX }
}

#[verifier::when_used_as_spec(angle_step_range_spec)]
pub fn angle_step_range() -> (r: GeneRange)
    ensures
        r == angle_step_range_spec(),
{
    GeneRange { start: -ANGLE_STEP, end: ANGLE_STEP }
}

#[verifier::when_used_as_spec(thrust_step_range_spec)]
pub fn thrust_step_range() -> (r: GeneRange)
    ensures
        r == thrust_step_range_spec(),
{
    GeneRange { start: -THRUST_STEP, end: THRUST_STEP }
}

impl GeneRange {
    /// Whether `v` lies in the range.
    pub open spec fn holds(self, v: int) -> bool {
        self.start <= v <= self.end
    }

    /// `v` brought into the range: the lower bound wins when the range is
    /// empty.
    pub open spec fn clamp(self, v: int) -> int {
        let capped = if v < self.end { v } else { self.end as int };
        if capped < self.start { self.start as int } else { capped }
    }

    /// Clamping lands in a range that is not empty, and leaves alone what is
    /// already there.
    pub proof fn clamp_lands(self, v: int)
        requires
            self.start <= self.end,
        ensures
            self.holds(self.clamp(v)),
            self.holds(v) ==> self.clamp(v) == v,
    {
    }
}

/// Brings `v` into `range`.
pub fn clamp(v: i32, range: GeneRange) -> (r: i32)
    ensures
        r == range.clamp(v as int),
{
    let capped: i32 = if v < range.end { v } else { range.end };
    if capped < range.start { range.start } else { capped }
}

fn clamp_wide(v: i128, range: GeneRange) -> (r: i32)
    ensures
        r == range.clamp(v as int),
{
    let capped: i128 = if v < range.end as i128 { v } else { range.end as i128 };
    if capped < range.start as i128 { range.start } else { capped as i32 }
}

/// The integer nearest to `p / q`, for positive `q`; a tie goes away from
/// zero.
pub open spec fn round_half_away(p: int, q: int) -> int {
    if p >= 0 {
        (2 * p + q) / (2 * q)
    } else {
        -((2 * (-p) + q) / (2 * q))
    }
}

/// The rounded mix of `a` and `b` that takes the share `at` of `a` and the
/// rest of `b`.
pub open spec fn blend(a: int, b: int, at: Fraction) -> int {
    round_half_away(at.num * a + (at.den - at.num) * b, at.den as int)
}

/// Rounding errs by at most one half.
pub proof fn round_half_away_is_nearest(p: int, q: int)
    requires
        q > 0,
    ensures
        -q <= 2 * (q * round_half_away(p, q) - p) <= q,
{
    let m = if p >= 0 { p } else { -p };
    let r = (2 * m + q) / (2 * q);
    assert(2 * m + q == (2 * q) * r + (2 * m + q) % (2 * q) && 0 <= (2 * m + q) % (2 * q) < 2 * q)
        by (nonlinear_arith)
        requires
            q > 0,
            r == (2 * m + q) / (2 * q),
    ;
    assert(q * (-r) == -(q * r)) by (nonlinear_arith);
    assert((2 * q) * r == 2 * (q * r)) by (nonlinear_arith);
}

/// The whole share of a value is the value itself, and no share of it is
/// the other value.
pub proof fn blend_at_the_ends(a: int, b: int, den: i64)
    requires
        den > 0,
    ensures
        blend(a, b, Fraction { num: den, den }) == a,
        blend(a, b, Fraction { num: 0, den }) == b,
{
    whole_multiples_round_to_themselves(a, den as int);
    whole_multiples_round_to_themselves(b, den as int);
    assert(den * a + (den - den) * b == den * a) by (nonlinear_arith);
    assert(0 * a + (den - 0) * b == den * b) by (nonlinear_arith);
}

proof fn whole_multiples_round_to_themselves(v: int, q: int)
    requires
        q > 0,
    ensures
        round_half_away(q * v, q) == v,
{
    round_half_away_is_nearest(q * v, q);
    let r = round_half_away(q * v, q);
    assert(r == v) by (nonlinear_arith)
        requires
            q > 0,
            -q <= 2 * (q * r - q * v) <= q,
    ;
}

/// A mix of two values lies between them.
pub proof fn blend_between(a: int, b: int, at: Fraction)
    requires
        at.is_unit(),
        a <= b,
    ensures
        a <= blend(a, b, at) <= b,
        a <= blend(b, a, at) <= b,
{
    let q = at.den as int;
    let n = at.num as int;
    blend_bounds(n * a + (q - n) * b, q, a, b);
    blend_bounds(n * b + (q - n) * a, q, a, b);
    assert(q * a <= n * a + (q - n) * b <= q * b) by (nonlinear_arith)
        requires
            0 <= n <= q,
            a <= b,
    ;
    assert(q * a <= n * b + (q - n) * a <= q * b) by (nonlinear_arith)
        requires
            0 <= n <= q,
            a <= b,
    ;
}

proof fn blend_bounds(p: int, q: int, a: int, b: int)
    requires
        q > 0,
        a <= b,
    ensures
        q * a <= p <= q * b ==> a <= round_half_away(p, q) <= b,
{
    round_half_away_is_nearest(p, q);
    let r = round_half_away(p, q);
    if q * a <= p <= q * b {
        assert(r >= a) by (nonlinear_arith)
            requires
                q > 0,
                -q <= 2 * (q * r - p),
                q * a <= p,
        ;
        assert(r <= b) by (nonlinear_arith)
            requires
                q > 0,
                2 * (q * r - p) <= q,
                p <= q * b,
        ;
    }
}

/// The genes of the child that takes the share `at` of `a` and the rest of
/// `b`, gene by gene, each rounded and then clamped to `range`. The sequences
/// are of one length.
pub open spec fn mix(a: Seq<i32>, b: Seq<i32>, at: Fraction, range: GeneRange) -> Seq<i32> {
    Seq::new(a.len(), |k: int| range.clamp(blend(a[k] as int, b[k] as int, at)) as i32)
}

/// Why two gene sequences could not be crossed.
#[derive(Clone, Copy, Debug, PartialEq, Eq, Structural)]
pub enum CrossError {
    /// The sequences differ in length.
    LengthMismatch { left: usize, right: usize },
    /// The blend coefficient is no number between 0 and 1.
    CrossPointOutOfRange,
}

fn blended(a: i32, b: i32, at: Fraction, range: GeneRange) -> (r: i32)
    requires
        at.is_unit(),
    ensures
        r == range.clamp(blend(a as int, b as int, at)),
{
    let num: i128 = at.num as i128;
    let den: i128 = at.den as i128;
    let rest: i128 = den - num;
    assert(-0x8000_0000_0000_0000 * 0x8000_0000 <= num * a <= 0x8000_0000_0000_0000 * 0x8000_0000)
        by (nonlinear_arith)
        requires
            0 <= num <= 0x8000_0000_0000_0000,
            -0x8000_0000 <= a <= 0x8000_0000,
    ;
    assert(-0x8000_0000_0000_0000 * 0x8000_0000 <= rest * b <= 0x8000_0000_0000_0000 * 0x8000_0000)
        by (nonlinear_arith)
        requires
            0 <= rest <= 0x8000_0000_0000_0000,
            -0x8000_0000 <= b <= 0x8000_0000,
    ;
    let p: i128 = num * (a as i128) + rest * (b as i128);
    let rounded: i128 = if p >= 0 {
        (2 * p + den) / (2 * den)
    } else {
        -((2 * (-p) + den) / (2 * den))
    };
    clamp_wide(rounded, range)
}

/// Arithmetic crossover of two gene sequences of one length: the first child
/// takes the share `i` of `a` and the rest of `b`, the second the share `i`
/// of `b` and the rest of `a`, gene by gene, rounded and clamped to `range`.
pub fn crossed(a: &[i32], b: &[i32], i: Fraction, range: GeneRange) -> (r: Result<
    (Vec<i32>, Vec<i32>),
    CrossError,
>)
    ensures
        a@.len() != b@.len() ==> r == Err::<(Vec<i32>, Vec<i32>), CrossError>(
            CrossError::LengthMismatch { left: a.len(), right: b.len() },
        ),
        a@.len() == b@.len() && !i.is_unit() ==> r == Err::<(Vec<i32>, Vec<i32>), CrossError>(
            CrossError::CrossPointOutOfRange,
        ),
        a@.len() == b@.len() && i.is_unit() ==> r is Ok,
        r matches Ok((x, y)) ==> x@ == mix(a@, b@, i, range) && y@ == mix(b@, a@, i, range),
{
    if a.len() != b.len() {
        return Err(CrossError::LengthMismatch { left: a.len(), right: b.len() });
    }
    if !i.in_unit_interval() {
        return Err(CrossError::CrossPointOutOfRange);
    }
    let n: usize = a.len();
    let mut x: Vec<i32> = Vec::new();
    let mut y: Vec<i32> = Vec::new();
    let mut k: usize = 0;
    while k < n
        invariant
            k <= n,
            n == a@.len(),
            n == b@.len(),
            i.is_unit(),
            x@.len() == k,
            y@.len() == k,
            forall|j: int| 0 <= j < k ==> #[trigger] x@[j] == range.clamp(blend(a@[j] as int, b@[j] as int, i)),
            forall|j: int| 0 <= j < k ==> #[trigger] y@[j] == range.clamp(blend(b@[j] as int, a@[j] as int, i)),
        decreases n - k,
    {
        x.push(blended(a[k], b[k], i, range));
        y.push(blended(b[k], a[k], i, range));
        k += 1;
    }
    Ok((x, y))
}

/// The running value after the first `k` of `deltas` have been added to
/// `initial`, clamped to `range` after each addition.
pub open spec fn running(initial: int, deltas: Seq<i32>, range: GeneRange, k: nat) -> int
    decreases k,
{
    if k == 0 {
        initial
    } else {
        range.clamp(running(initial, deltas, range, (k - 1) as nat) + deltas[k - 1])
    }
}

/// Every running value but the initial one lies in a range that is not empty.
pub proof fn running_in_range(initial: int, deltas: Seq<i32>, range: GeneRange, k: nat)
    requires
        range.start <= range.end,
        k >= 1,
    ensures
        range.holds(running(initial, deltas, range, k)),
{
    range.clamp_lands(running(initial, deltas, range, (k - 1) as nat) + deltas[k - 1]);
}

/// The running values of `deltas` from `initial`, one for each delta.
pub open spec fn sums(initial: int, deltas: Seq<i32>, range: GeneRange) -> Seq<i32> {
    Seq::new(deltas.len(), |k: int| running(initial, deltas, range, (k + 1) as nat) as i32)
}

/// The running values lie in a range that is not empty.
pub proof fn sums_in_range(initial: int, deltas: Seq<i32>, range: GeneRange)
    requires
        range.start <= range.end,
    ensures
        forall|k: int| 0 <= k < deltas.len() ==> range.holds(#[trigger] sums(initial, deltas, range)[k] as int),
{
    assert forall|k: int| 0 <= k < deltas.len() implies range.holds(
        #[trigger] sums(initial, deltas, range)[k] as int,
    ) by {
        running_in_range(initial, deltas, range, (k + 1) as nat);
    }
}

/// The running sums of `deltas` from `initial_value`, each clamped to `range`
/// before the next delta is added.
pub fn accumulated(initial_value: i32, deltas: &[i32], range: GeneRange) -> (r: Vec<i32>)
    ensures
        r@ == sums(initial_value as int, deltas@, range),
{
    let n: usize = deltas.len();
    let mut r: Vec<i32> = Vec::new();
    let mut value: i32 = initial_value;
    let mut k: usize = 0;
    while k < n
        invariant
            k <= n,
            n == deltas@.len(),
            r@.len() == k,
            value == running(initial_value as int, deltas@, range, k as nat),
            forall|j: int|
                0 <= j < k ==> #[trigger] r@[j] == running(initial_value as int, deltas@, range, (j + 1) as nat),
        decreases n - k,
    {
        value = clamp_wide(value as i128 + deltas[k] as i128, range);
        r.push(value);
        k += 1;
    }
    r
}

} // verus!
