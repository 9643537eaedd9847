//! Crater descriptors and the crater field generator.
//!
//! A crater is a circular depression with a continuous center, a radius
//! and a depth, all stored in thousandths of a grid unit. A crater
//! affects a lattice point only strictly inside its radius; there it
//! offers the parabolic bowl elevation `((d + r) * (d - r)) / depth`,
//! which equals `(d*d - r*r) / depth` and is therefore exact in the
//! fixed-point model: squared distances carry millionths of a square
//! grid unit, and the offered elevation is the exact rational
//! `(dsq - rsq) / (1000 * depth_milli)`.

use vstd::prelude::*;

use crate::rat::pair_eq;
use crate::rng::{SeededRng, lcg_next, sample_spec, state_after, lemma_state_after_add};
use crate::COORD_LIMIT_MILLI;
use crate::MAX_SIDE;

verus! {

/// One immutable crater: center `(cx, cz)`, radius and depth, in
/// thousandths of a grid unit.
#[derive(Clone, Copy, Debug, PartialEq, Eq, Structural)]
pub struct Crater {
    pub cx_milli: i64,
    pub cz_milli: i64,
    pub radius_milli: i64,
    pub depth_milli: i64,
}

impl Crater {
    /// Radius and depth are positive; all parameters are small enough
    /// that squared distances and radii fit in `i64`.
    pub open spec fn wf(self) -> bool {
        &&& -COORD_LIMIT_MILLI <= self.cx_milli <= COORD_LIMIT_MILLI
        &&& -COORD_LIMIT_MILLI <= self.cz_milli <= COORD_LIMIT_MILLI
        &&& 0 < self.radius_milli <= COORD_LIMIT_MILLI
        &&& 0 < self.depth_milli <= COORD_LIMIT_MILLI
    }
}

/// Squared planar distance from lattice point `(x, z)` to the center of
/// `c`, in millionths of a square grid unit.
pub open spec fn dist_sq_micro(c: Crater, x: int, z: int) -> int {
    let dx = 1000 * x - c.cx_milli;
    let dz = 1000 * z - c.cz_milli;
    dx * dx + dz * dz
}

/// Squared radius of `c`, in millionths of a square grid unit.
pub open spec fn radius_sq_micro(c: Crater) -> int {
    (c.radius_milli as int) * (c.radius_milli as int)
}

/// A crater affects exactly the lattice points strictly inside its
/// radius; at the rim (`d == radius`) and beyond it has no effect.
pub open spec fn covers(c: Crater, x: int, z: int) -> bool {
    dist_sq_micro(c, x, z) < radius_sq_micro(c)
}

/// Numerator of the elevation the crater offers at `(x, z)`:
/// `d*d - r*r`, in millionths of a square grid unit. Negative wherever
/// the crater covers the point, and zero exactly at the rim.
pub open spec fn depression_num(c: Crater, x: int, z: int) -> int {
    dist_sq_micro(c, x, z) - radius_sq_micro(c)
}

/// Denominator of the elevation the crater offers: the fixed-point
/// scales of `d*d - r*r` (millionths) and of `depth` (thousandths)
/// cancel to `1000 * depth_milli`.
pub open spec fn depression_den(c: Crater) -> int {
    1000 * c.depth_milli
}

/// At the exact rim, where the squared distance equals the squared
/// radius, a crater offers elevation zero — and it does not cover the
/// point, so it leaves the point's elevation alone entirely.
pub proof fn lemma_rim_offers_zero(c: Crater, x: int, z: int)
    requires
        dist_sq_micro(c, x, z) == radius_sq_micro(c),
    ensures
        depression_num(c, x, z) == 0,
        !covers(c, x, z),
{
}

/// At the crater's center (`d == 0`), the offered elevation is exactly
/// `-radius * radius / depth`: with radius `radius_milli / 1000` and
/// depth `depth_milli / 1000`, that value is the fraction
/// `-(radius_milli * radius_milli) / (1000 * depth_milli)`.
pub proof fn lemma_center_offer(c: Crater, x: int, z: int)
    requires
        dist_sq_micro(c, x, z) == 0,
    ensures
        depression_num(c, x, z) == -radius_sq_micro(c),
        pair_eq(
            depression_num(c, x, z),
            depression_den(c),
            -((c.radius_milli as int) * (c.radius_milli as int)),
            1000 * (c.depth_milli as int),
        ),
        c.radius_milli > 0 ==> covers(c, x, z),
{
    let r = c.radius_milli as int;
    assert(r > 0 ==> r * r > 0) by (nonlinear_arith);
}

/// The crater drawn from generator state `s` for a grid of side
/// `side`: three draws, for `cx`, `cz` and the radius; the depth is the
/// fixed class depth.
pub open spec fn crater_from(s: u64, side: int, r_lo: int, r_hi: int, depth: int) -> Crater {
    Crater {
        cx_milli: sample_spec(s, 0, 1000 * side) as i64,
        cz_milli: sample_spec(lcg_next(s), 0, 1000 * side) as i64,
        radius_milli: sample_spec(state_after(s, 2), r_lo, r_hi) as i64,
        depth_milli: depth as i64,
    }
}

/// The sequence of `count` craters of one class drawn starting from
/// generator state `s`; each crater consumes three draws.
pub open spec fn crater_seq(
    s: u64, side: int, count: nat, r_lo: int, r_hi: int, depth: int,
) -> Seq<Crater>
    decreases count,
{
    if count == 0 {
        Seq::empty()
    } else {
        seq![crater_from(s, side, r_lo, r_hi, depth)]
            + crater_seq(state_after(s, 3), side, (count - 1) as nat, r_lo, r_hi, depth)
    }
}

/// Drawing one more crater appends it to the sequence: the `k + 1`-st
/// crater of a class is drawn from the state `3 * k` steps in.
pub proof fn lemma_crater_seq_snoc(
    s: u64, side: int, k: nat, r_lo: int, r_hi: int, depth: int,
)
    ensures
        crater_seq(s, side, k + 1, r_lo, r_hi, depth)
            =~= crater_seq(s, side, k, r_lo, r_hi, depth)
                .push(crater_from(state_after(s, 3 * k), side, r_lo, r_hi, depth)),
    decreases k,
{
    let c0 = crater_from(s, side, r_lo, r_hi, depth);
    let s3 = state_after(s, 3);
    assert(state_after(s, 0) == s);
    if k == 0 {
        assert(crater_seq(s, side, 0, r_lo, r_hi, depth) == Seq::<Crater>::empty());
        assert(crater_seq(s3, side, 0, r_lo, r_hi, depth) == Seq::<Crater>::empty());
        assert(crater_seq(s, side, 1, r_lo, r_hi, depth) =~= seq![c0]);
    } else {
        lemma_crater_seq_snoc(s3, side, (k - 1) as nat, r_lo, r_hi, depth);
        lemma_state_after_add(s, 3, (3 * (k - 1)) as nat);
        assert(3 + 3 * (k - 1) == 3 * k);
        let ck = crater_from(state_after(s, 3 * k), side, r_lo, r_hi, depth);
        let tail_prev = crater_seq(s3, side, (k - 1) as nat, r_lo, r_hi, depth);
        assert(crater_seq(s, side, k + 1, r_lo, r_hi, depth) == seq![c0] + crater_seq(
            s3,
            side,
            k,
            r_lo,
            r_hi,
            depth,
        ));
        assert(crater_seq(s3, side, k, r_lo, r_hi, depth) == tail_prev.push(ck));
        assert(crater_seq(s, side, k, r_lo, r_hi, depth) == seq![c0] + tail_prev);
        assert(seq![c0] + tail_prev.push(ck) =~= (seq![c0] + tail_prev).push(ck));
    }
}

/// Draws one crater: center coordinates uniform over `[0, side)` in
/// thousandths, radius uniform over the class range `[r_lo, r_hi)`
/// (or equal to `r_lo` when the range is empty), fixed class depth.
pub fn sample_crater(
    rng: &mut SeededRng, side: usize, r_lo: i64, r_hi: i64, depth: i64,
) -> (c: Crater)
    requires
        1 <= side <= MAX_SIDE,
        0 < r_lo <= r_hi <= COORD_LIMIT_MILLI,
        0 < depth <= COORD_LIMIT_MILLI,
    ensures
        c == crater_from(old(rng).state, side as int, r_lo as int, r_hi as int, depth as int),
        final(rng).state == state_after(old(rng).state, 3),
        c.wf(),
        0 <= c.cx_milli < 1000 * side,
        0 <= c.cz_milli < 1000 * side,
        r_lo <= c.radius_milli <= r_hi,
        r_lo < r_hi ==> c.radius_milli < r_hi,
        c.depth_milli == depth,
{
    let ghost s = rng.state;
    let hi: i64 = 1000 * (side as i64);
    let cx = rng.sample_milli(0, hi);
    let cz = rng.sample_milli(0, hi);
    let radius = rng.sample_milli(r_lo, r_hi);
    proof {
        assert(state_after(s, 0) == s);
        assert(state_after(s, 1) == lcg_next(s));
        assert(state_after(s, 2) == lcg_next(state_after(s, 1)));
        assert(state_after(s, 3) == lcg_next(state_after(s, 2)));
    }
    Crater { cx_milli: cx, cz_milli: cz, radius_milli: radius, depth_milli: depth }
}

/// Membership in one crater class: the center inside the grid's
/// coordinate range, the radius inside the class's half-open range
/// (or equal to `r_lo` when the range is empty), the class depth.
pub open spec fn in_class(c: Crater, side: int, r_lo: int, r_hi: int, depth: int) -> bool {
    &&& 0 <= c.cx_milli < 1000 * side
    &&& 0 <= c.cz_milli < 1000 * side
    &&& r_lo <= c.radius_milli <= r_hi
    &&& (r_lo < r_hi ==> c.radius_milli < r_hi)
    &&& c.depth_milli == depth
}

/// Draws `count` craters of one class, in order.
pub fn sample_crater_class(
    rng: &mut SeededRng, side: usize, count: usize, r_lo: i64, r_hi: i64, depth: i64,
) -> (v: Vec<Crater>)
    requires
        1 <= side <= MAX_SIDE,
        0 < r_lo <= r_hi <= COORD_LIMIT_MILLI,
        0 < depth <= COORD_LIMIT_MILLI,
    ensures
        v@ == crater_seq(
            old(rng).state, side as int, count as nat, r_lo as int, r_hi as int, depth as int,
        ),
        final(rng).state == state_after(old(rng).state, 3 * count as nat),
        v@.len() == count,
        forall|i: int| 0 <= i < v@.len() ==> (#[trigger] v@[i]).wf(),
        forall|i: int| 0 <= i < v@.len() ==> in_class(#[trigger] v@[i], side as int, r_lo as int, r_hi as int, depth as int),
{
    let s0 = Ghost(rng.state);
    let mut v: Vec<Crater> = Vec::new();
    let mut k: usize = 0;
    while k < count
        invariant
            1 <= side <= MAX_SIDE,
            0 < r_lo <= r_hi <= COORD_LIMIT_MILLI,
            0 < depth <= COORD_LIMIT_MILLI,
            k <= count,
            v@ == crater_seq(s0@, side as int, k as nat, r_lo as int, r_hi as int, depth as int),
            rng.state == state_after(s0@, 3 * k as nat),
            v@.len() == k,
            forall|i: int| 0 <= i < v@.len() ==> (#[trigger] v@[i]).wf(),
            forall|i: int| 0 <= i < v@.len() ==> in_class(#[trigger] v@[i], side as int, r_lo as int, r_hi as int, depth as int),
        decreases count - k,
    {
        proof {
            lemma_crater_seq_snoc(
                s0@, side as int, k as nat, r_lo as int, r_hi as int, depth as int,
            );
            lemma_state_after_add(s0@, 3 * k as nat, 3);
            assert(3 * (k + 1) as nat == 3 * k as nat + 3);
        }
        let c = sample_crater(rng, side, r_lo, r_hi, depth);
        v.push(c);
        k = k + 1;
    }
    v
}

} // verus!
