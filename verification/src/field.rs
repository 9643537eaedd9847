//! Heightfields and the crater compositor.
//!
//! A heightfield maps every lattice point of a square grid to an exact
//! rational elevation, stored row-major: index `x * side + z`. The
//! compositor lowers each point to the minimum of its base elevation
//! and the elevations offered by the craters that cover it; minimum is
//! commutative and associative, so the outcome is a property of the
//! crater set, not of the evaluation order.

use vstd::prelude::*;
use vstd::arithmetic::div_mod::lemma_mod_division_less_than_divisor;
use vstd::arithmetic::div_mod::lemma_multiply_divide_lt;

use crate::crater::{covers, depression_den, depression_num, Crater};
use crate::rat::{
    lemma_pair_le_antisymmetric, lemma_pair_le_congruent, lemma_pair_le_transitive,
    lemma_pair_eq_symmetric, pair_eq, pair_le, Rat,
};
use crate::rng::{lcg_next, sample_spec, state_after, SeededRng};
use crate::MAX_SIDE;

verus! {

/// A square lattice of exact elevations, row-major: the elevation of
/// lattice point `(x, z)` sits at index `x * side + z`.
#[derive(Clone, Debug)]
pub struct HeightField {
    pub side: usize,
    pub heights: Vec<Rat>,
}

impl HeightField {
    pub open spec fn wf(self) -> bool {
        &&& self.side <= MAX_SIDE
        &&& self.heights@.len() == (self.side as int) * (self.side as int)
        &&& forall|i: int| 0 <= i < self.heights@.len() ==> (#[trigger] self.heights@[i]).wf()
    }

    /// The elevation at lattice point `(x, z)`.
    pub open spec fn at_spec(self, x: int, z: int) -> Rat {
        self.heights@[x * (self.side as int) + z]
    }

    /// Every point at the constant elevation `sea_level_milli / 1000`.
    pub fn flat(side: usize, sea_level_milli: i64) -> (f: HeightField)
        requires
            side <= MAX_SIDE,
        ensures
            f.wf(),
            f.side == side,
            forall|i: int| 0 <= i < f.heights@.len() ==> f.heights@[i]
                == (Rat { num: sea_level_milli, den: 1000int as i64 }),
    {
        proof {
            lemma_square_bound(side as int, MAX_SIDE as int);
        }
        let total: usize = side * side;
        let mut heights: Vec<Rat> = Vec::new();
        let mut i: usize = 0;
        while i < total
            invariant
                i <= total,
                heights@.len() == i,
                forall|j: int| 0 <= j < i ==> heights@[j]
                    == (Rat { num: sea_level_milli, den: 1000int as i64 }),
            decreases total - i,
        {
            heights.push(Rat::from_milli(sea_level_milli));
            i = i + 1;
        }
        HeightField { side, heights }
    }

    /// Every point drawn independently and uniformly from the
    /// half-open range `[lo_milli, hi_milli)` of thousandths, in
    /// row-major order, one draw per point.
    pub fn sample_uniform(
        side: usize, lo_milli: i64, hi_milli: i64, rng: &mut SeededRng,
    ) -> (f: HeightField)
        requires
            side <= MAX_SIDE,
            lo_milli <= hi_milli,
            -0x1000_0000_0000 <= lo_milli,
            hi_milli <= 0x1000_0000_0000,
        ensures
            f.wf(),
            f.side == side,
            forall|i: int| 0 <= i < f.heights@.len() ==> (#[trigger] f.heights@[i]).den == 1000,
            forall|i: int| 0 <= i < f.heights@.len() ==> (#[trigger] f.heights@[i]).num as int
                == sample_spec(
                    state_after(old(rng).state, i as nat), lo_milli as int, hi_milli as int,
                ),
            forall|i: int| 0 <= i < f.heights@.len() ==> lo_milli <= (
                #[trigger] f.heights@[i]).num <= hi_milli,
            lo_milli < hi_milli ==> forall|i: int| 0 <= i < f.heights@.len() ==> (
                #[trigger] f.heights@[i]).num < hi_milli,
            lo_milli == hi_milli ==> forall|i: int| 0 <= i < f.heights@.len() ==> (
                #[trigger] f.heights@[i]).num == lo_milli,
            final(rng).state == state_after(old(rng).state, ((side as int) * (side as int)) as nat),
    {
        let ghost s0 = rng.state;
        proof {
            lemma_square_bound(side as int, MAX_SIDE as int);
        }
        let total: usize = side * side;
        let mut heights: Vec<Rat> = Vec::new();
        let mut i: usize = 0;
        while i < total
            invariant
                i <= total,
                heights@.len() == i,
                lo_milli <= hi_milli,
                -0x1000_0000_0000 <= lo_milli,
                hi_milli <= 0x1000_0000_0000,
                rng.state == state_after(s0, i as nat),
                forall|j: int| 0 <= j < i ==> (#[trigger] heights@[j]).den == 1000,
                forall|j: int| 0 <= j < i ==> (#[trigger] heights@[j]).num as int
                    == sample_spec(state_after(s0, j as nat), lo_milli as int, hi_milli as int),
                forall|j: int| 0 <= j < i ==> lo_milli <= (#[trigger] heights@[j]).num <= hi_milli,
                lo_milli < hi_milli ==> forall|j: int| 0 <= j < i ==> (
                    #[trigger] heights@[j]).num < hi_milli,
                lo_milli == hi_milli ==> forall|j: int| 0 <= j < i ==> (
                    #[trigger] heights@[j]).num == lo_milli,
            decreases total - i,
        {
            proof {
                assert(state_after(s0, (i + 1) as nat) == lcg_next(state_after(s0, i as nat)));
            }
            let m = rng.sample_milli(lo_milli, hi_milli);
            heights.push(Rat::from_milli(m));
            i = i + 1;
        }
        HeightField { side, heights }
    }

    /// Reads the elevation at `(x, z)`.
    pub fn at(&self, x: usize, z: usize) -> (r: Rat)
        requires
            self.wf(),
            x < self.side,
            z < self.side,
        ensures
            r == self.at_spec(x as int, z as int),
    {
        proof {
            lemma_row_major_index_in_range(self.side as int, x as int, z as int);
            lemma_square_bound(self.side as int, MAX_SIDE as int);
        }
        self.heights[x * self.side + z]
    }
}

/// A row-major index lies inside the vertex buffer.
pub proof fn lemma_row_major_index_in_range(side: int, x: int, z: int)
    by (nonlinear_arith)
    requires
        0 <= x < side,
        0 <= z < side,
    ensures
        0 <= x * side + z < side * side,
{
}

/// The composited elevation at `(x, z)` as an exact rational
/// `(numerator, denominator)` pair: the base elevation `bn / bd`
/// lowered, crater by crater in sequence order, to the elevation each
/// covering crater offers whenever that is lower. Minimum is
/// commutative and associative, so the value depends only on the
/// multiset of craters (`lemma_carved_permutation`).
pub open spec fn carved_pair(bn: int, bd: int, cs: Seq<Crater>, x: int, z: int) -> (int, int)
    decreases cs.len(),
{
    if cs.len() == 0 {
        (bn, bd)
    } else {
        let prev = carved_pair(bn, bd, cs.drop_last(), x, z);
        let c = cs.last();
        if covers(c, x, z) {
            let cn = depression_num(c, x, z);
            let cd = depression_den(c);
            if pair_le(cn, cd, prev.0, prev.1) {
                (cn, cd)
            } else {
                prev
            }
        } else {
            prev
        }
    }
}

/// The composited elevation of heightfield entry `i` (row-major), for
/// a grid of side `side`.
pub open spec fn carved_entry(base: Rat, cs: Seq<Crater>, side: int, i: int) -> (int, int) {
    carved_pair(base.num as int, base.den as int, cs, i / side, i % side)
}

/// Squares of bounded values are bounded.
pub(crate) proof fn lemma_square_bound(a: int, b: int)
    by (nonlinear_arith)
    requires
        -b <= a <= b,
        0 <= b,
    ensures
        0 <= a * a <= b * b,
{
}

/// Composites every crater into one point's elevation: the point keeps
/// the minimum of its base elevation and the elevations offered by the
/// covering craters.
pub fn carve_point(base: Rat, craters: &Vec<Crater>, x: usize, z: usize) -> (r: Rat)
    requires
        base.wf(),
        forall|i: int| 0 <= i < craters@.len() ==> (#[trigger] craters@[i]).wf(),
        x <= MAX_SIDE,
        z <= MAX_SIDE,
    ensures
        r.wf(),
        (r.num as int, r.den as int) == carved_pair(
            base.num as int, base.den as int, craters@, x as int, z as int,
        ),
{
    let ghost cs = craters@;
    let mut h = base;
    let mut k: usize = 0;
    proof {
        assert(cs.take(0) =~= Seq::<Crater>::empty());
    }
    while k < craters.len()
        invariant
            base.wf(),
            forall|i: int| 0 <= i < cs.len() ==> (#[trigger] cs[i]).wf(),
            cs == craters@,
            x <= MAX_SIDE,
            z <= MAX_SIDE,
            k <= cs.len(),
            h.wf(),
            (h.num as int, h.den as int) == carved_pair(
                base.num as int, base.den as int, cs.take(k as int), x as int, z as int,
            ),
        decreases craters.len() - k,
    {
        let c = craters[k];
        proof {
            assert(cs.take(k + 1).drop_last() =~= cs.take(k as int));
            assert(cs.take(k + 1).last() == cs[k as int]);
            lemma_square_bound(1000 * (x as int) - c.cx_milli, 120_000_000);
            lemma_square_bound(1000 * (z as int) - c.cz_milli, 120_000_000);
            lemma_square_bound(c.radius_milli as int, 100_000_000);
        }
        let dx: i64 = 1000 * (x as i64) - c.cx_milli;
        let dz: i64 = 1000 * (z as i64) - c.cz_milli;
        let dsq: i64 = dx * dx + dz * dz;
        let rsq: i64 = c.radius_milli * c.radius_milli;
        if dsq < rsq {
            let cand = Rat { num: dsq - rsq, den: 1000 * c.depth_milli };
            if cand.le(&h) {
                h = cand;
            }
        }
        k = k + 1;
    }
    proof {
        assert(cs.take(cs.len() as int) =~= cs);
    }
    h
}

/// Applies every crater to every lattice point of the base
/// heightfield: each entry becomes the exact minimum of its base
/// elevation and the elevations offered by the craters covering it.
///
/// Runs in `O(side * side * craters.len())` time, which suits the
/// intended scale (a side around one hundred, a handful of craters);
/// much larger inputs would want craters bucketed by the cells they
/// overlap instead of this full sweep.
pub fn carve(base: &HeightField, craters: &Vec<Crater>) -> (out: HeightField)
    requires
        base.wf(),
        forall|i: int| 0 <= i < craters@.len() ==> (#[trigger] craters@[i]).wf(),
    ensures
        out.wf(),
        out.side == base.side,
        out.heights@.len() == base.heights@.len(),
        forall|i: int| 0 <= i < out.heights@.len() ==> ((#[trigger] out.heights@[i]).num as int,
            out.heights@[i].den as int) == carved_entry(
                base.heights@[i], craters@, base.side as int, i,
        ),
{
    let side = base.side;
    let total = base.heights.len();
    let mut heights: Vec<Rat> = Vec::new();
    let mut i: usize = 0;
    while i < total
        invariant
            base.wf(),
            forall|j: int| 0 <= j < craters@.len() ==> (#[trigger] craters@[j]).wf(),
            side == base.side,
            total == base.heights@.len(),
            i <= total,
            heights@.len() == i,
            forall|j: int| 0 <= j < i ==> (#[trigger] heights@[j]).wf(),
            forall|j: int| 0 <= j < i ==> ((#[trigger] heights@[j]).num as int,
                heights@[j].den as int) == carved_entry(
                    base.heights@[j], craters@, side as int, j,
            ),
        decreases total - i,
    {
        proof {
            lemma_multiply_divide_lt(i as int, side as int, side as int);
            lemma_mod_division_less_than_divisor(i as int, side as int);
        }
        let x = i / side;
        let z = i % side;
        let h = carve_point(base.heights[i], craters, x, z);
        heights.push(h);
        i = i + 1;
    }
    HeightField { side, heights }
}


/// Craters of a well-formed prefix are well-formed.
proof fn lemma_drop_last_wf(cs: Seq<Crater>)
    requires
        cs.len() > 0,
        forall|i: int| 0 <= i < cs.len() ==> (#[trigger] cs[i]).wf(),
    ensures
        forall|i: int| 0 <= i < cs.drop_last().len() ==> (#[trigger] cs.drop_last()[i]).wf(),
{
    assert forall|i: int| 0 <= i < cs.drop_last().len() implies (
    #[trigger] cs.drop_last()[i]).wf() by {
        assert(cs.drop_last()[i] == cs[i]);
    };
}

/// The composited elevation keeps a positive denominator.
pub proof fn lemma_carved_den_pos(bn: int, bd: int, cs: Seq<Crater>, x: int, z: int)
    requires
        bd > 0,
        forall|i: int| 0 <= i < cs.len() ==> (#[trigger] cs[i]).wf(),
    ensures
        carved_pair(bn, bd, cs, x, z).1 > 0,
    decreases cs.len(),
{
    if cs.len() > 0 {
        lemma_drop_last_wf(cs);
        lemma_carved_den_pos(bn, bd, cs.drop_last(), x, z);
        assert(cs.last() == cs[cs.len() - 1]);
    }
}

/// The composited elevation at a point is the exact minimum of the
/// base elevation and the elevations offered by the craters that cover
/// the point: it is a lower bound on all of them, and it equals one of
/// them. In particular it never depends on how ties are broken, and a
/// point that no crater covers keeps its base value.
pub proof fn lemma_carved_is_minimum(bn: int, bd: int, cs: Seq<Crater>, x: int, z: int)
    requires
        bd > 0,
        forall|i: int| 0 <= i < cs.len() ==> (#[trigger] cs[i]).wf(),
    ensures
        ({
            let r = carved_pair(bn, bd, cs, x, z);
            &&& pair_le(r.0, r.1, bn, bd)
            &&& forall|i: int|
                0 <= i < cs.len() && covers(#[trigger] cs[i], x, z) ==> pair_le(
                    r.0,
                    r.1,
                    depression_num(cs[i], x, z),
                    depression_den(cs[i]),
                )
            &&& (pair_eq(r.0, r.1, bn, bd) || exists|i: int|
                0 <= i < cs.len() && covers(#[trigger] cs[i], x, z) && pair_eq(
                    r.0,
                    r.1,
                    depression_num(cs[i], x, z),
                    depression_den(cs[i]),
                ))
        }),
    decreases cs.len(),
{
    let r = carved_pair(bn, bd, cs, x, z);
    if cs.len() > 0 {
        let rest = cs.drop_last();
        lemma_drop_last_wf(cs);
        lemma_carved_is_minimum(bn, bd, rest, x, z);
        lemma_carved_den_pos(bn, bd, rest, x, z);
        let p = carved_pair(bn, bd, rest, x, z);
        let c = cs.last();
        assert(c == cs[cs.len() - 1]);
        let cn = depression_num(c, x, z);
        let cd = depression_den(c);
        if covers(c, x, z) && pair_le(cn, cd, p.0, p.1) {
            lemma_pair_le_transitive(cn, cd, p.0, p.1, bn, bd);
            assert forall|i: int|
                0 <= i < cs.len() && covers(#[trigger] cs[i], x, z) implies pair_le(
                r.0,
                r.1,
                depression_num(cs[i], x, z),
                depression_den(cs[i]),
            ) by {
                if i < cs.len() - 1 {
                    assert(rest[i] == cs[i]);
                    lemma_pair_le_transitive(
                        cn, cd, p.0, p.1, depression_num(cs[i], x, z), depression_den(cs[i]),
                    );
                }
            };
            assert(covers(cs[cs.len() - 1], x, z) && pair_eq(
                r.0,
                r.1,
                depression_num(cs[cs.len() - 1], x, z),
                depression_den(cs[cs.len() - 1]),
            ));
        } else {
            assert(r == p);
            assert forall|i: int|
                0 <= i < cs.len() && covers(#[trigger] cs[i], x, z) implies pair_le(
                r.0,
                r.1,
                depression_num(cs[i], x, z),
                depression_den(cs[i]),
            ) by {
                if i < cs.len() - 1 {
                    assert(rest[i] == cs[i]);
                }
            };
            if !pair_eq(p.0, p.1, bn, bd) {
                let j = choose|j: int|
                    0 <= j < rest.len() && covers(#[trigger] rest[j], x, z) && pair_eq(
                        p.0,
                        p.1,
                        depression_num(rest[j], x, z),
                        depression_den(rest[j]),
                    );
                assert(rest[j] == cs[j]);
                assert(covers(cs[j], x, z) && pair_eq(
                    r.0,
                    r.1,
                    depression_num(cs[j], x, z),
                    depression_den(cs[j]),
                ));
            }
        }
    }
}

/// A point that no crater covers keeps its base elevation — the very
/// fraction, not merely its value.
pub proof fn lemma_uncovered_keeps_base(bn: int, bd: int, cs: Seq<Crater>, x: int, z: int)
    requires
        forall|i: int| 0 <= i < cs.len() ==> !covers(#[trigger] cs[i], x, z),
    ensures
        carved_pair(bn, bd, cs, x, z) == (bn, bd),
    decreases cs.len(),
{
    if cs.len() > 0 {
        assert forall|i: int| 0 <= i < cs.drop_last().len() implies !covers(
            #[trigger] cs.drop_last()[i],
            x,
            z,
        ) by {
            assert(cs.drop_last()[i] == cs[i]);
        };
        lemma_uncovered_keeps_base(bn, bd, cs.drop_last(), x, z);
        assert(cs.last() == cs[cs.len() - 1]);
    }
}

/// A crater that does not cover a point — at the rim or beyond it —
/// contributes nothing there: removing it from the sequence leaves the
/// composited elevation identical.
pub proof fn lemma_uncovered_crater_removed(
    bn: int, bd: int, cs: Seq<Crater>, idx: int, x: int, z: int,
)
    requires
        0 <= idx < cs.len(),
        !covers(cs[idx], x, z),
    ensures
        carved_pair(bn, bd, cs.remove(idx), x, z) == carved_pair(bn, bd, cs, x, z),
    decreases cs.len(),
{
    if idx == cs.len() - 1 {
        assert(cs.remove(idx) =~= cs.drop_last());
    } else {
        assert(cs.drop_last()[idx] == cs[idx]);
        lemma_uncovered_crater_removed(bn, bd, cs.drop_last(), idx, x, z);
        assert(cs.remove(idx).drop_last() =~= cs.drop_last().remove(idx));
        assert(cs.remove(idx).last() == cs.last());
    }
}

/// Walking one crater sequence lowers the result at least as far as
/// any reordering of the same craters does.
proof fn lemma_carved_le_of_permutation(
    bn: int, bd: int, cs1: Seq<Crater>, cs2: Seq<Crater>, x: int, z: int,
)
    requires
        bd > 0,
        forall|i: int| 0 <= i < cs1.len() ==> (#[trigger] cs1[i]).wf(),
        forall|i: int| 0 <= i < cs2.len() ==> (#[trigger] cs2[i]).wf(),
        cs1.to_multiset() == cs2.to_multiset(),
    ensures
        ({
            let r1 = carved_pair(bn, bd, cs1, x, z);
            let r2 = carved_pair(bn, bd, cs2, x, z);
            pair_le(r1.0, r1.1, r2.0, r2.1)
        }),
{
    broadcast use vstd::seq_lib::group_to_multiset_ensures;

    lemma_carved_is_minimum(bn, bd, cs1, x, z);
    lemma_carved_is_minimum(bn, bd, cs2, x, z);
    lemma_carved_den_pos(bn, bd, cs1, x, z);
    lemma_carved_den_pos(bn, bd, cs2, x, z);
    let r1 = carved_pair(bn, bd, cs1, x, z);
    let r2 = carved_pair(bn, bd, cs2, x, z);
    if pair_eq(r2.0, r2.1, bn, bd) {
        lemma_pair_eq_symmetric(r2.0, r2.1, bn, bd);
        lemma_pair_le_congruent(r1.0, r1.1, bn, bd, r2.0, r2.1);
    } else {
        let i = choose|i: int|
            0 <= i < cs2.len() && covers(#[trigger] cs2[i], x, z) && pair_eq(
                r2.0,
                r2.1,
                depression_num(cs2[i], x, z),
                depression_den(cs2[i]),
            );
        let c = cs2[i];
        assert(cs2.contains(c));
        assert(cs1.to_multiset().count(c) > 0);
        assert(cs1.contains(c));
        let j = choose|j: int| 0 <= j < cs1.len() && cs1[j] == c;
        assert(pair_le(r1.0, r1.1, depression_num(c, x, z), depression_den(c)));
        lemma_pair_eq_symmetric(r2.0, r2.1, depression_num(c, x, z), depression_den(c));
        lemma_pair_le_congruent(
            r1.0, r1.1, depression_num(c, x, z), depression_den(c), r2.0, r2.1,
        );
    }
}

/// Crater evaluation order does not matter: two sequences holding the
/// same craters — one a permutation of the other — composite every
/// point to the same exact elevation value. Minimum is commutative and
/// associative, so the result is a property of the crater set alone.
pub proof fn lemma_carved_permutation(
    bn: int, bd: int, cs1: Seq<Crater>, cs2: Seq<Crater>, x: int, z: int,
)
    requires
        bd > 0,
        forall|i: int| 0 <= i < cs1.len() ==> (#[trigger] cs1[i]).wf(),
        forall|i: int| 0 <= i < cs2.len() ==> (#[trigger] cs2[i]).wf(),
        cs1.to_multiset() == cs2.to_multiset(),
    ensures
        ({
            let r1 = carved_pair(bn, bd, cs1, x, z);
            let r2 = carved_pair(bn, bd, cs2, x, z);
            pair_eq(r1.0, r1.1, r2.0, r2.1)
        }),
{
    lemma_carved_le_of_permutation(bn, bd, cs1, cs2, x, z);
    lemma_carved_le_of_permutation(bn, bd, cs2, cs1, x, z);
    let r1 = carved_pair(bn, bd, cs1, x, z);
    let r2 = carved_pair(bn, bd, cs2, x, z);
    lemma_pair_le_antisymmetric(r1.0, r1.1, r2.0, r2.1);
}

/// The same, for whole heightfields: `carve` pins every entry of its
/// output to `carved_entry`, so carving with a permuted crater
/// sequence yields a field whose every entry is value-equal.
pub proof fn lemma_carved_entry_permutation(
    base: Rat, cs1: Seq<Crater>, cs2: Seq<Crater>, side: int, i: int,
)
    requires
        base.wf(),
        forall|k: int| 0 <= k < cs1.len() ==> (#[trigger] cs1[k]).wf(),
        forall|k: int| 0 <= k < cs2.len() ==> (#[trigger] cs2[k]).wf(),
        cs1.to_multiset() == cs2.to_multiset(),
    ensures
        ({
            let e1 = carved_entry(base, cs1, side, i);
            let e2 = carved_entry(base, cs2, side, i);
            pair_eq(e1.0, e1.1, e2.0, e2.1)
        }),
{
    lemma_carved_permutation(base.num as int, base.den as int, cs1, cs2, i / side, i % side);
}

} // verus!
