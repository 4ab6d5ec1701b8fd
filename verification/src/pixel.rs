//! RGBA pixels and the distance between two of them.

use vstd::prelude::*;

verus! {

/// The largest squared distance two pixels can have: three colour channels,
/// each at most 255 apart.
pub const DISTANCE_SCALE: u32 = 195075;

/// One pixel: red, green, blue and alpha, eight bits each.
#[derive(Clone, Copy, Debug, PartialEq, Eq, Structural)]
pub struct Rgba {
    pub r: u8,
    pub g: u8,
    pub b: u8,
    pub a: u8,
}

impl Rgba {
    /// The pixel that shows nothing: every channel zero.
    pub open spec fn transparent() -> Rgba {
        Rgba { r: 0, g: 0, b: 0, a: 0 }
    }

    /// The pixel with the given red, green, blue and alpha.
    pub fn new(r: u8, g: u8, b: u8, a: u8) -> (p: Self)
        ensures
            p == (Rgba { r, g, b, a }),
    {
        Rgba { r, g, b, a }
    }
}

/// The square of the difference of two channel values.
pub open spec fn channel_gap(a: u8, b: u8) -> int {
    (a - b) * (a - b)
}

/// The squared distance of two pixels over red, green and blue. Alpha takes
/// no part in it.
pub open spec fn squared_distance(p: Rgba, q: Rgba) -> int {
    channel_gap(p.r, q.r) + channel_gap(p.g, q.g) + channel_gap(p.b, q.b)
}

/// A single channel contributes at most 255 squared.
pub proof fn lemma_channel_gap_bounds(a: u8, b: u8)
    ensures
        0 <= channel_gap(a, b) <= 65025,
        channel_gap(a, b) == 0 <==> a == b,
        channel_gap(a, b) == channel_gap(b, a),
{
    let d = a - b;
    assert(0 <= d * d <= 65025) by (nonlinear_arith)
        requires
            -255 <= d <= 255,
    ;
    assert(d * d == 0 <==> d == 0) by (nonlinear_arith);
    assert((a - b) * (a - b) == (b - a) * (b - a)) by (nonlinear_arith);
}

fn gap(a: u8, b: u8) -> (r: u32)
    ensures
        r == channel_gap(a, b),
        r <= 65025,
{
    proof {
        lemma_channel_gap_bounds(a, b);
    }
    let d: u32 = if a >= b {
        (a - b) as u32
    } else {
        (b - a) as u32
    };
    assert(d * d == channel_gap(a, b)) by (nonlinear_arith)
        requires
            d == a - b || d == b - a,
    ;
    d * d
}

/// How far apart two pixels are, on a scale from 0 (same colour) to
/// `DISTANCE_SCALE` (black against white): the sum over red, green and blue
/// of the squared channel difference. Dividing by `DISTANCE_SCALE` gives the
/// distance as a fraction between 0 and 1.
pub fn difference(px1: Rgba, px2: Rgba) -> (d: u32)
    ensures
        d == squared_distance(px1, px2),
        d <= DISTANCE_SCALE,
{
    gap(px1.r, px2.r) + gap(px1.g, px2.g) + gap(px1.b, px2.b)
}

/// How much two pixels may differ and still count as the same: the largest
/// `difference` that is tolerated. As a fraction of the greatest possible
/// distance, the threshold is `limit / DISTANCE_SCALE`.
#[derive(Clone, Copy, Debug, PartialEq, Eq, Structural)]
pub struct Leniency {
    pub limit: u32,
}

impl Leniency {
    /// Two pixels this far apart count as different.
    pub open spec fn exceeded_by(self, distance: int) -> bool {
        distance > self.limit
    }

    /// The leniency that tolerates a `difference` of up to `limit`.
    pub fn new(limit: u32) -> (l: Self)
        ensures
            l.limit == limit,
    {
        Leniency { limit }
    }

    /// The leniency for a threshold given as the fraction
    /// `numerator / denominator` of the greatest possible distance, or
    /// nothing unless that fraction is at least 0 and less than 1. A
    /// percentage `p` is the fraction `p / 100`.
    ///
    /// Two pixels then count as different exactly if their distance, taken
    /// as a fraction of the greatest possible distance, is greater than
    /// `numerator / denominator`.
    pub fn from_ratio(numerator: u32, denominator: u32) -> (l: Option<Self>)
        ensures
            l is Some <==> numerator < denominator,
            l matches Some(leniency) ==> {
                &&& leniency.limit == (DISTANCE_SCALE * numerator) / (denominator as int)
                &&& leniency.limit < DISTANCE_SCALE
                &&& forall|d: int| #[trigger]
                    leniency.exceeded_by(d) <==> d * denominator > DISTANCE_SCALE * numerator
            },
    {
        if numerator >= denominator {
            return None;
        }
        assert((DISTANCE_SCALE as u64) * (numerator as u64) <= u64::MAX) by (nonlinear_arith)
            requires
                numerator <= u32::MAX,
                DISTANCE_SCALE == 195075,
        ;
        let scaled: u64 = (DISTANCE_SCALE as u64) * (numerator as u64);
        let limit: u64 = scaled / (denominator as u64);
        proof {
            lemma_floor_threshold(scaled as int, denominator as int);
            assert(limit < DISTANCE_SCALE) by (nonlinear_arith)
                requires
                    limit * denominator <= scaled,
                    scaled == DISTANCE_SCALE * numerator,
                    numerator < denominator,
                    0 <= limit,
                    0 <= numerator,
            ;
        }
        Some(Leniency { limit: limit as u32 })
    }

    /// Whether two pixels this far apart count as different.
    pub fn is_exceeded_by(&self, distance: u32) -> (r: bool)
        ensures
            r == self.exceeded_by(distance as int),
    {
        distance > self.limit
    }
}

/// Rounding a threshold down to a whole number does not change which whole
/// numbers lie above it.
pub proof fn lemma_floor_threshold(n: int, d: int)
    requires
        0 <= n,
        0 < d,
    ensures
        0 <= n / d,
        (n / d) * d <= n,
        forall|k: int| k > n / d <==> #[trigger] (k * d) > n,
{
    vstd::arithmetic::div_mod::lemma_fundamental_div_mod(n, d);
    vstd::arithmetic::div_mod::lemma_mod_pos_bound(n, d);
    vstd::arithmetic::div_mod::lemma_div_pos_is_pos(n, d);
    let q = n / d;
    assert(d * q == q * d) by (nonlinear_arith);
    assert forall|k: int| k > q <==> #[trigger] (k * d) > n by {
        if k > q {
            assert(k * d >= (q + 1) * d) by (nonlinear_arith)
                requires
                    k >= q + 1,
                    d > 0,
            ;
            assert((q + 1) * d == q * d + d) by (nonlinear_arith);
        } else {
            assert(k * d <= q * d) by (nonlinear_arith)
                requires
                    k <= q,
                    d > 0,
            ;
        }
    }
}

} // verus!
