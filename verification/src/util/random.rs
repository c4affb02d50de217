//! The random source: uniform scalars and range-mapped values, derived from
//! the wall clock and held as exact ratios.

use std::time::Duration;
use vstd::prelude::*;

verus! {

/// What a bit-reversed clock reading is divided by to become a seed: the
/// double-precision number nearest to 10^29, as an integer.
pub const SEED_DIVISOR: u128 = 99_999_999_999_999_991_433_150_857_216;

/// The largest seed there is: `u128::MAX / SEED_DIVISOR`.
pub const SEED_MAX: u128 = 3_402_823_669;

/// No denominator of a [`Scalar`] lies above this power of ten.
pub const SCALE_LIMIT: u64 = 10_000_000_000;

/// The low `width` bits of `x` in reverse order.
pub open spec fn reversed_low_bits(x: u128, width: u128) -> u128
    decreases width,
{
    if width == 0 {
        0
    } else {
        ((x & 1) << ((width - 1) as u128)) | reversed_low_bits(x >> 1, (width - 1) as u128)
    }
}

/// `x` with the order of its 128 bits reversed.
pub open spec fn reversed_bits(x: u128) -> u128 {
    reversed_low_bits(x, 128)
}

/// The seed that a clock reading of `nanos` nanoseconds gives.
pub open spec fn seed_of(nanos: u128) -> u128 {
    reversed_bits(nanos) / SEED_DIVISOR
}

/// The scale of `seed`: the power of ten with as many zeros as `seed` has
/// decimal digits, which is the least power of ten above `seed`.
pub open spec fn scale_bound(seed: nat) -> nat
    decreases seed,
{
    if seed < 10 {
        10
    } else {
        10 * scale_bound(seed / 10)
    }
}

/// `value` held to the range of `u8`: what is below it becomes 0 and what is
/// above it 255.
pub open spec fn clamped(value: int) -> u8 {
    if value < 0 {
        0u8
    } else if value > 255 {
        255u8
    } else {
        value as u8
    }
}

/// The exact ratio `numerator / denominator`.
#[derive(Clone, Copy, Debug, PartialEq, Eq, Structural)]
pub struct Scalar {
    pub numerator: i128,
    pub denominator: u64,
}

/// One end of a range: closed, open, or absent.
#[derive(Clone, Copy, Debug, PartialEq, Eq, Structural)]
pub enum RangeLimit {
    Included(i64),
    Excluded(i64),
    Unbounded,
}

impl RangeLimit {
    /// The number this limit stands for at the low end of a range.
    pub open spec fn lower(self) -> int {
        match self {
            RangeLimit::Included(x) => x as int,
            RangeLimit::Excluded(x) => x as int,
            RangeLimit::Unbounded => i64::MIN as int,
        }
    }

    /// The number this limit stands for at the high end of a range.
    pub open spec fn upper(self) -> int {
        match self {
            RangeLimit::Included(x) => x as int,
            RangeLimit::Excluded(x) => x as int,
            RangeLimit::Unbounded => i64::MAX as int,
        }
    }
}

impl Scalar {
    /// The denominator is positive and not above [`SCALE_LIMIT`], and the
    /// ratio lies within the range of `i64`.
    pub open spec fn wf(self) -> bool {
        &&& 0 < self.denominator <= SCALE_LIMIT
        &&& i64::MIN * self.denominator <= self.numerator <= i64::MAX * self.denominator
    }

    /// The ratio lies in `[0, 1)`.
    pub open spec fn is_unit(self) -> bool {
        0 <= self.numerator < self.denominator
    }

    /// The ratio is at least `k`.
    pub open spec fn at_least(self, k: int) -> bool {
        k * self.denominator <= self.numerator
    }

    /// The ratio is at most `k`.
    pub open spec fn at_most(self, k: int) -> bool {
        self.numerator <= k * self.denominator
    }

    /// The ratio that `seed` stands for: `seed` over its scale.
    pub open spec fn of_seed(seed: u128) -> Scalar {
        Scalar { numerator: seed as i128, denominator: scale_bound(seed as nat) as u64 }
    }

    /// The point `lo + self * (hi - lo)`.
    pub open spec fn between(self, lo: int, hi: int) -> Scalar {
        Scalar {
            numerator: (lo * self.denominator + self.numerator * (hi - lo)) as i128,
            denominator: self.denominator,
        }
    }

    /// The whole part of `self * len`, for a ratio that is not negative.
    pub open spec fn scaled(self, len: nat) -> nat {
        ((self.numerator * len) / (self.denominator as int)) as nat
    }

    /// The whole part of the ratio, rounded toward zero.
    pub open spec fn truncated(self) -> int {
        if self.numerator >= 0 {
            (self.numerator as int) / (self.denominator as int)
        } else {
            -((-(self.numerator as int)) / (self.denominator as int))
        }
    }
}

/// `u128::reverse_bits` of std: the least significant bit becomes the most
/// significant one, the second the second most significant, and so on.
pub assume_specification[ u128::reverse_bits ](x: u128) -> (r: u128)
    ensures
        r == reversed_bits(x),
;

/// `Duration::as_nanos` of std: the whole span in nanoseconds. The span is
/// opaque here, so nothing is claimed of the number.
pub assume_specification[ Duration::as_nanos ](span: &Duration) -> u128;

/// `SystemTime::elapsed` of std, asked of `UNIX_EPOCH`: the span from the
/// Unix epoch to the system clock's present reading, or `None` where the
/// clock stands before the epoch. Nothing is claimed of the reading.
#[verifier::external_body]
fn epoch_elapsed() -> Option<Duration> {
    match std::time::UNIX_EPOCH.elapsed() {
        Ok(span) => Some(span),
        Err(_) => None,
    }
}

proof fn lemma_scale_bound_floor(seed: nat)
    ensures
        scale_bound(seed) >= 10,
        seed >= 10 ==> scale_bound(seed) >= 100,
        seed < scale_bound(seed),
    decreases seed,
{
    if seed >= 10 {
        lemma_scale_bound_floor(seed / 10);
    }
}

proof fn lemma_scale_bound_monotone(a: nat, b: nat)
    requires
        a <= b,
    ensures
        scale_bound(a) <= scale_bound(b),
    decreases b,
{
    if b >= 10 {
        if a >= 10 {
            lemma_scale_bound_monotone(a / 10, b / 10);
        } else {
            lemma_scale_bound_floor(b);
        }
    }
}

proof fn lemma_scale_bound_of_seed(seed: u128)
    requires
        seed <= SEED_MAX,
    ensures
        10 <= scale_bound(seed as nat) <= SCALE_LIMIT,
        seed < scale_bound(seed as nat),
{
    lemma_scale_bound_floor(seed as nat);
    lemma_scale_bound_monotone(seed as nat, SEED_MAX as nat);
    assert(scale_bound(SEED_MAX as nat) == SCALE_LIMIT) by {
        reveal_with_fuel(scale_bound, 11);
    }
}

/// Whatever the clock reads, the scalar of the reading lies in `[0, 1)`.
pub proof fn lemma_uniform_in_unit_interval(nanos: u128)
    ensures
        Scalar::of_seed(seed_of(nanos)).is_unit(),
        Scalar::of_seed(seed_of(nanos)).wf(),
{
    let seed = seed_of(nanos);
    lemma_scale_bound_of_seed(seed);
    let draw = Scalar::of_seed(seed);
    assert(draw.wf()) by (nonlinear_arith)
        requires
            0 <= draw.numerator < draw.denominator,
            0 < draw.denominator <= SCALE_LIMIT,
    ;
}

/// Whatever a draw from `[0, 1)` is, the point it picks between two ends
/// lies between them, in whichever order the ends are given and whether they
/// are open, closed or absent.
pub proof fn lemma_range_point_within(draw: Scalar, start: RangeLimit, end: RangeLimit)
    requires
        draw.wf(),
        draw.is_unit(),
    ensures
        start.lower() <= end.upper() ==> draw.between(start.lower(), end.upper()).at_least(
            start.lower(),
        ) && draw.between(start.lower(), end.upper()).at_most(end.upper()),
        end.upper() <= start.lower() ==> draw.between(start.lower(), end.upper()).at_least(
            end.upper(),
        ) && draw.between(start.lower(), end.upper()).at_most(start.lower()),
{
    lemma_between_bounds(
        draw.numerator as int,
        draw.denominator as int,
        start.lower(),
        end.upper(),
    );
}

/// The uniform scalar that a clock reading of `nanos` nanoseconds since the
/// epoch gives: the reading's bits are reversed, the result is divided by
/// [`SEED_DIVISOR`], and the seed that comes out is set over its scale, the
/// power of ten with as many zeros as the seed has decimal digits. The
/// scalar lies in `[0, 1)`.
pub fn scalar_from_clock(nanos: u128) -> (draw: Scalar)
    ensures
        draw == Scalar::of_seed(seed_of(nanos)),
        draw.wf(),
        draw.is_unit(),
{
    let seed: u128 = nanos.reverse_bits() / SEED_DIVISOR;
    assert(seed <= SEED_MAX);
    proof {
        lemma_scale_bound_of_seed(seed);
    }
    let mut bound: u64 = 10;
    let mut rest: u128 = seed;
    while rest >= 10
        invariant
            rest <= seed <= SEED_MAX,
            10 <= bound <= SCALE_LIMIT,
            bound * scale_bound(rest as nat) == 10 * scale_bound(seed as nat),
            scale_bound(seed as nat) <= SCALE_LIMIT,
        decreases rest,
    {
        proof {
            lemma_scale_bound_floor(rest as nat);
            lemma_scale_bound_floor((rest / 10) as nat);
            let inner = scale_bound((rest / 10) as nat);
            assert(scale_bound(rest as nat) == 10 * inner);
            assert(bound * (10 * inner) == (bound * 10) * inner) by (nonlinear_arith);
            assert(bound * 10 <= SCALE_LIMIT) by (nonlinear_arith)
                requires
                    (bound * 10) * inner == 10 * scale_bound(seed as nat),
                    inner >= 10,
                    scale_bound(seed as nat) <= SCALE_LIMIT,
                    bound >= 10,
            ;
        }
        rest = rest / 10;
        bound = bound * 10;
    }
    assert(scale_bound(rest as nat) == 10);
    assert(bound == scale_bound(seed as nat)) by (nonlinear_arith)
        requires
            bound * 10 == 10 * scale_bound(seed as nat),
    ;
    let draw = Scalar { numerator: seed as i128, denominator: bound };
    assert(draw.wf()) by (nonlinear_arith)
        requires
            draw.numerator >= 0,
            draw.numerator <= draw.denominator,
            0 < draw.denominator <= SCALE_LIMIT,
    ;
    draw
}

/// Reads the clock and turns the reading into a uniform scalar in `[0, 1)`.
/// `None` where the system clock stands before the Unix epoch.
pub fn random() -> (draw: Option<Scalar>)
    ensures
        draw matches Some(s) ==> s.wf() && s.is_unit() && exists|nanos: u128|
            s == Scalar::of_seed(#[trigger] seed_of(nanos)),
{
    match epoch_elapsed() {
        Some(span) => {
            let nanos = span.as_nanos();
            Some(scalar_from_clock(nanos))
        },
        None => None,
    }
}

impl Scalar {
    /// The point of the range from `start` to `end` that this draw picks:
    /// `lo + self * (hi - lo)`, where an open end counts like a closed one
    /// and an absent end is the least or the greatest `i64`.
    pub fn scale_into_range(self, start: RangeLimit, end: RangeLimit) -> (point: Scalar)
        requires
            self.wf(),
            self.is_unit(),
        ensures
            point == self.between(start.lower(), end.upper()),
            point.wf(),
            start.lower() <= end.upper() ==> point.at_least(start.lower()) && point.at_most(
                end.upper(),
            ),
            end.upper() <= start.lower() ==> point.at_least(end.upper()) && point.at_most(
                start.lower(),
            ),
    {
        let lo: i128 = match start {
            RangeLimit::Included(x) => x as i128,
            RangeLimit::Excluded(x) => x as i128,
            RangeLimit::Unbounded => i64::MIN as i128,
        };
        let hi: i128 = match end {
            RangeLimit::Included(x) => x as i128,
            RangeLimit::Excluded(x) => x as i128,
            RangeLimit::Unbounded => i64::MAX as i128,
        };
        let den: i128 = self.denominator as i128;
        let num: i128 = self.numerator;
        let width: i128 = hi - lo;
        proof {
            lemma_between_bounds(num as int, den as int, lo as int, hi as int);
        }
        let base: i128 = lo * den;
        let offset: i128 = num * width;
        Scalar { numerator: base + offset, denominator: self.denominator }
    }

    /// The whole part of the ratio, rounded toward zero.
    pub fn truncate(&self) -> (whole: i128)
        requires
            self.wf(),
        ensures
            whole == self.truncated(),
            i64::MIN <= whole <= i64::MAX,
    {
        let den: u128 = self.denominator as u128;
        proof {
            lemma_truncated_bounds(self.numerator as int, self.denominator as int);
        }
        if self.numerator >= 0 {
            ((self.numerator as u128) / den) as i128
        } else {
            let magnitude: u128 = (-self.numerator) as u128;
            -((magnitude / den) as i128)
        }
    }

    /// The whole part of the ratio as a `u8`, held to the range of `u8`.
    pub fn to_u8(&self) -> (byte: u8)
        requires
            self.wf(),
        ensures
            byte == clamped(self.truncated()),
    {
        let whole = self.truncate();
        if whole < 0 {
            0
        } else if whole > 255 {
            255
        } else {
            whole as u8
        }
    }

    /// Whether the ratio is one half or more.
    pub fn at_least_half(&self) -> (yes: bool)
        requires
            self.wf(),
            self.is_unit(),
        ensures
            yes == (2 * self.numerator >= self.denominator),
    {
        2 * self.numerator >= self.denominator as i128
    }

    /// The whole part of `self * len`: the place that a draw picks in a list
    /// of `len` entries.
    pub fn index_into(&self, len: usize) -> (index: usize)
        requires
            self.wf(),
            self.is_unit(),
        ensures
            index == self.scaled(len as nat),
            len > 0 ==> index < len,
            len == 0 ==> index == 0,
    {
        let num: u128 = self.numerator as u128;
        let den: u128 = self.denominator as u128;
        assert(0 <= num * len <= 0xffff_ffff_ffff_ffff_ffff_ffff_ffff) by (nonlinear_arith)
            requires
                0 <= num < den,
                den <= SCALE_LIMIT,
                0 <= len <= usize::MAX,
        ;
        let product: u128 = num * (len as u128);
        assert(len > 0 ==> product / den < len) by (nonlinear_arith)
            requires
                product == num * len,
                0 <= num < den,
        ;
        assert(len == 0 ==> product / den == 0) by (nonlinear_arith)
            requires
                product == num * len,
                den > 0,
        ;
        (product / den) as usize
    }
}

proof fn lemma_between_bounds(num: int, den: int, lo: int, hi: int)
    requires
        0 <= num <= den,
        0 < den <= SCALE_LIMIT,
        i64::MIN <= lo <= i64::MAX,
        i64::MIN <= hi <= i64::MAX,
    ensures
        i128::MIN <= lo * den <= i128::MAX,
        i128::MIN <= num * (hi - lo) <= i128::MAX,
        i128::MIN <= lo * den + num * (hi - lo) <= i128::MAX,
        i64::MIN * den <= lo * den + num * (hi - lo) <= i64::MAX * den,
        lo <= hi ==> lo * den <= lo * den + num * (hi - lo) <= hi * den,
        hi <= lo ==> hi * den <= lo * den + num * (hi - lo) <= lo * den,
{
    assert(i64::MIN * den <= lo * den <= i64::MAX * den) by (nonlinear_arith)
        requires
            0 < den,
            i64::MIN <= lo <= i64::MAX,
    ;
    assert(i64::MIN * den <= hi * den <= i64::MAX * den) by (nonlinear_arith)
        requires
            0 < den,
            i64::MIN <= hi <= i64::MAX,
    ;
    assert(i64::MAX * den <= i64::MAX * SCALE_LIMIT && i64::MIN * SCALE_LIMIT <= i64::MIN * den)
        by (nonlinear_arith)
        requires
            0 < den <= SCALE_LIMIT,
    ;
    assert(lo <= hi ==> 0 <= num * (hi - lo) <= den * (hi - lo)) by (nonlinear_arith)
        requires
            0 <= num <= den,
    ;
    assert(hi <= lo ==> den * (hi - lo) <= num * (hi - lo) <= 0) by (nonlinear_arith)
        requires
            0 <= num <= den,
    ;
    assert(lo * den + den * (hi - lo) == hi * den) by (nonlinear_arith);
}

proof fn lemma_truncated_bounds(num: int, den: int)
    requires
        0 < den,
        i64::MIN * den <= num <= i64::MAX * den,
    ensures
        num >= 0 ==> 0 <= num / den <= i64::MAX,
        num < 0 ==> 0 <= (-num) / den <= -i64::MIN,
{
    if num >= 0 {
        assert(0 <= num / den <= i64::MAX) by (nonlinear_arith)
            requires
                0 < den,
                0 <= num <= i64::MAX * den,
        ;
    } else {
        assert(0 <= (-num) / den <= -i64::MIN) by (nonlinear_arith)
            requires
                0 < den,
                0 < -num <= (-i64::MIN) * den,
        ;
    }
}

/// A point between two whole numbers has its whole part between them.
pub proof fn lemma_whole_part_within(point: Scalar, lo: int, hi: int)
    requires
        point.denominator > 0,
        lo <= hi,
        point.at_least(lo),
        point.at_most(hi),
    ensures
        lo <= point.truncated() <= hi,
{
    let num = point.numerator as int;
    let den = point.denominator as int;
    if num >= 0 {
        assert(hi >= 0 && num / den <= hi) by (nonlinear_arith)
            requires
                0 <= num <= hi * den,
                0 < den,
        ;
        assert(lo <= num / den) by (nonlinear_arith)
            requires
                lo * den <= num,
                0 <= num,
                0 < den,
        ;
    } else {
        assert(lo < 0 && (-num) / den <= -lo) by (nonlinear_arith)
            requires
                lo * den <= num < 0,
                0 < den,
        ;
        assert(-hi <= (-num) / den) by (nonlinear_arith)
            requires
                num <= hi * den,
                num < 0,
                0 < den,
        ;
    }
}

/// Draws a uniform scalar and maps it into the range from `start` to `end`:
/// the point is `lo + u * (hi - lo)` for the scalar `u` of the clock's
/// reading. `None` where the system clock stands before the Unix epoch.
pub fn random_range(start: RangeLimit, end: RangeLimit) -> (point: Option<Scalar>)
    ensures
        point matches Some(p) ==> {
            &&& p.wf()
            &&& exists|nanos: u128|
                p == (#[trigger] Scalar::of_clock(nanos)).between(start.lower(), end.upper())
            &&& start.lower() <= end.upper() ==> p.at_least(start.lower()) && p.at_most(
                end.upper(),
            )
            &&& end.upper() <= start.lower() ==> p.at_least(end.upper()) && p.at_most(
                start.lower(),
            )
        },
{
    match random() {
        Some(draw) => {
            let point = draw.scale_into_range(start, end);
            proof {
                let nanos = choose|nanos: u128| draw == Scalar::of_seed(#[trigger] seed_of(nanos));
                assert(point == Scalar::of_clock(nanos).between(start.lower(), end.upper()));
            }
            Some(point)
        },
        None => None,
    }
}

impl Scalar {
    /// The uniform scalar of a clock reading of `nanos` nanoseconds since
    /// the epoch.
    pub open spec fn of_clock(nanos: u128) -> Scalar {
        Scalar::of_seed(seed_of(nanos))
    }
}

} // verus!
