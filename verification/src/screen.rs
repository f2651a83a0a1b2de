//! Where on the touch screen a pair of tones points, and where the mouse goes for it.
//!
//! The left channel sweeps horizontally between the "Left" and "Right" tones, the
//! right channel vertically between the "Top" and "Bottom" tones. Positions are exact
//! fractions, so that nothing is lost between the tones and the mouse position.
use vstd::prelude::*;

verus! {

/// An exact fraction `num / den`, with a positive denominator.
#[derive(Clone, Copy, Debug, PartialEq, Eq, Structural)]
pub struct Ratio {
    pub num: i128,
    pub den: i128,
}

impl Ratio {
    /// Whether `self` is the fraction `num / den` written with the same numbers.
    pub open spec fn is(self, num: int, den: int) -> bool {
        self.num == num && self.den == den
    }
}

/// The share `offset / span` clamped to `[0, 1]`, as (numerator, denominator).
///
/// A zero span counts as an infinitely steep one: a non-negative offset gives 1,
/// a negative one 0.
pub open spec fn unit_share(offset: int, span: int) -> (int, int) {
    if span == 0 {
        if offset >= 0 {
            (1, 1)
        } else {
            (0, 1)
        }
    } else {
        let n = if span > 0 { offset } else { -offset };
        let d = if span > 0 { span } else { -span };
        if n <= 0 {
            (0, 1)
        } else if n >= d {
            (1, 1)
        } else {
            (n, d)
        }
    }
}

/// The share `offset / span` clamped to `[0, 1]`.
pub fn clamped_share(offset: i128, span: i128) -> (r: Ratio)
    requires
        -0x1_0000_0000_0000_0000 <= offset <= 0x1_0000_0000_0000_0000,
        -0x1_0000_0000_0000_0000 <= span <= 0x1_0000_0000_0000_0000,
    ensures
        r.is(unit_share(offset as int, span as int).0, unit_share(offset as int, span as int).1),
        0 <= r.num <= r.den,
        0 < r.den <= 0x1_0000_0000_0000_0000,
{
    if span == 0 {
        if offset >= 0 {
            Ratio { num: 1, den: 1 }
        } else {
            Ratio { num: 0, den: 1 }
        }
    } else {
        let n: i128 = if span > 0 { offset } else { -offset };
        let d: i128 = if span > 0 { span } else { -span };
        if n <= 0 {
            Ratio { num: 0, den: 1 }
        } else if n >= d {
            Ratio { num: 1, den: 1 }
        } else {
            Ratio { num: n, den: d }
        }
    }
}

/// The horizontal share of the screen: where the left tone lies between the
/// "Left" tone (index 13) and the "Right" tone (index 15).
pub open spec fn horizontal_share(left: i64, tones: Seq<i64>) -> (int, int) {
    unit_share(left - tones[13], tones[15] - tones[13])
}

/// The vertical share of the screen: where the right tone lies between the
/// "Top" tone (index 12) and the "Bottom" tone (index 14).
pub open spec fn vertical_share(right: i64, tones: Seq<i64>) -> (int, int) {
    unit_share(right - tones[12], tones[14] - tones[12])
}

/// The coordinate `low + share * (high - low)` for a share `(num, den)`, as a fraction
/// over the share's denominator.
pub open spec fn along(low: i32, high: i32, share: (int, int)) -> (int, int) {
    (low * share.1 + share.0 * (high - low), share.1)
}

/// Whether the fraction `num / den` lies between `low` and `high`, whichever is larger.
pub open spec fn lies_between(num: int, den: int, low: i32, high: i32) -> bool {
    if low <= high {
        low * den <= num <= high * den
    } else {
        high * den <= num <= low * den
    }
}

/// A share of the way from `low` to `high` lies between them: the mouse stays within
/// the calibrated screen area.
pub proof fn lemma_along_between(low: i32, high: i32, share: (int, int))
    requires
        0 <= share.0 <= share.1,
        0 < share.1,
    ensures
        along(low, high, share).1 == share.1,
        lies_between(along(low, high, share).0, share.1, low, high),
{
    let n = share.0;
    let d = share.1;
    let l = low as int;
    let h = high as int;
    assert(l * d + n * (h - l) == l * (d - n) + h * n) by (nonlinear_arith);
    if l <= h {
        assert(l * d <= l * (d - n) + h * n <= h * d) by (nonlinear_arith)
            requires
                l <= h,
                0 <= n <= d,
        ;
    } else {
        assert(h * d <= l * (d - n) + h * n <= l * d) by (nonlinear_arith)
            requires
                h < l,
                0 <= n <= d,
        ;
    }
}

/// The clamped share is `offset / span` whenever that lies in `[0, 1]`, 0 below, 1 above:
/// with `(n, d)` the share, `n * span == d * offset` inside the span.
pub proof fn lemma_unit_share_exact(offset: int, span: int)
    ensures
        (0 < span && 0 <= offset <= span) || (span < 0 && span <= offset <= 0)
            ==> unit_share(offset, span).0 * span == unit_share(offset, span).1 * offset,
        (0 < span && offset <= 0) || (span < 0 && offset >= 0) ==> unit_share(offset, span) == (0int, 1int),
        (0 < span && offset >= span) || (span < 0 && offset <= span) ==> unit_share(offset, span) == (1int, 1int),
{
    if span < 0 && span <= offset <= 0 {
        assert((-offset) * span == (-span) * offset) by (nonlinear_arith);
    }
    if 0 < span && 0 <= offset <= span {
        assert(offset * span == span * offset) by (nonlinear_arith);
    }
}

/// Every clamped share lies in `[0, 1]` and has a positive denominator.
pub proof fn lemma_unit_share_bounds(offset: int, span: int)
    ensures
        0 <= unit_share(offset, span).0 <= unit_share(offset, span).1,
        0 < unit_share(offset, span).1,
{
}

/// The mouse coordinate for a share of the way from `low` to `high`.
pub fn coordinate_along(low: i32, high: i32, share: Ratio) -> (r: Ratio)
    requires
        0 <= share.num <= share.den,
        0 < share.den <= 0x1_0000_0000_0000_0000,
    ensures
        r.is(along(low, high, (share.num as int, share.den as int)).0, share.den as int),
        r.den > 0,
        lies_between(r.num as int, r.den as int, low, high),
{
    proof {
        lemma_along_between(low, high, (share.num as int, share.den as int));
    }
    let width: i128 = high as i128 - low as i128;
    assert(-0x1_0000_0000 <= width <= 0x1_0000_0000);
    assert(-0x1_0000_0000 * 0x1_0000_0000_0000_0000 <= share.num * width
        <= 0x1_0000_0000 * 0x1_0000_0000_0000_0000) by (nonlinear_arith)
        requires
            -0x1_0000_0000 <= width <= 0x1_0000_0000,
            0 <= share.num <= 0x1_0000_0000_0000_0000,
    ;
    assert(-0x1_0000_0000 * 0x1_0000_0000_0000_0000 <= (low as i128) * share.den
        <= 0x1_0000_0000 * 0x1_0000_0000_0000_0000) by (nonlinear_arith)
        requires
            -0x1_0000_0000 <= low <= 0x1_0000_0000,
            0 < share.den <= 0x1_0000_0000_0000_0000,
    ;
    Ratio { num: low as i128 * share.den + share.num * width, den: share.den }
}

} // verus!
