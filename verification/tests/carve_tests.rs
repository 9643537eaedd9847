//! Crater compositor behaviour: the minimum policy, rim and center
//! values, order independence, and the hand-computed four-by-four
//! scenario.

use crater_terrain::crater::Crater;
use crater_terrain::field::{carve, carve_point, HeightField};
use crater_terrain::rat::Rat;

fn crater(cx_milli: i64, cz_milli: i64, radius_milli: i64, depth_milli: i64) -> Crater {
    Crater { cx_milli, cz_milli, radius_milli, depth_milli }
}

#[test]
fn four_by_four_single_center_crater() {
    // Grid of side 4, flat base at elevation 0, one crater at
    // (1.5, 1.5) with radius 2 and depth 10. Every point within
    // distance 2 of the center takes ((d + 2) * (d - 2)) / 10
    // == (d*d - 4) / 10; all others stay at 0.
    let base = HeightField::flat(4, 0);
    let craters = vec![crater(1500, 1500, 2000, 10000)];
    let carved = carve(&base, &craters);

    let zero = Rat::new(0, 1);
    for x in 0..4i64 {
        for z in 0..4i64 {
            let got = carved.heights[(x * 4 + z) as usize];
            let dsq = (1000 * x - 1500).pow(2) + (1000 * z - 1500).pow(2);
            // d*d in square units is dsq / 1_000_000.
            let expected = if dsq < 4_000_000 {
                // (d*d - 4) / 10 == (dsq - 4_000_000) / 10_000_000.
                Rat::new(dsq - 4_000_000, 10_000_000)
            } else {
                zero
            };
            assert!(got.eq_val(&expected), "point ({x}, {z})");
        }
    }

    // The same values, hand-computed: corners untouched, edge
    // neighbors at -0.15, the four inner points at -0.35.
    let at = |x: usize, z: usize| carved.at(x, z);
    for (x, z) in [(0, 0), (0, 3), (3, 0), (3, 3)] {
        assert!(at(x, z).eq_val(&zero));
    }
    let edge = Rat::new(-15, 100);
    for (x, z) in [(0, 1), (0, 2), (1, 0), (2, 0), (1, 3), (2, 3), (3, 1), (3, 2)] {
        assert!(at(x, z).eq_val(&edge));
    }
    let inner = Rat::new(-35, 100);
    for (x, z) in [(1, 1), (1, 2), (2, 1), (2, 2)] {
        assert!(at(x, z).eq_val(&inner));
    }
}

#[test]
fn rim_point_keeps_base_value() {
    // A crater centered on lattice point (0, 0) with radius exactly 3:
    // the point (3, 0) sits on the rim, where the crater offers 0 but
    // does not cover, so the base value stays — even a negative one.
    let base = HeightField::flat(5, -2000);
    let craters = vec![crater(0, 0, 3000, 10000)];
    let carved = carve(&base, &craters);
    assert!(carved.heights[3 * 5].eq_val(&Rat::new(-2, 1)));
    // A positive base at the rim also stays: the crater is skipped,
    // not composited at value zero.
    let high = HeightField::flat(5, 4000);
    let carved_high = carve(&high, &craters);
    assert!(carved_high.heights[3 * 5].eq_val(&Rat::new(4, 1)));
}

#[test]
fn center_point_takes_radius_squared_over_depth() {
    // Crater centered on lattice point (2, 2), radius 1.5, depth 10:
    // at the center d == 0, so the elevation is -radius^2 / depth
    // == -2.25 / 10 == -0.225.
    let base = HeightField::flat(5, 0);
    let craters = vec![crater(2000, 2000, 1500, 10000)];
    let carved = carve(&base, &craters);
    assert!(carved.heights[2 * 5 + 2].eq_val(&Rat::new(-225, 1000)));
}

#[test]
fn overlapping_craters_take_the_minimum() {
    // Two craters centered on (1, 1): radius 2 depth 10 offers -0.4 at
    // the center; radius 1 depth 2 offers -0.5. The lower one wins; the
    // sum (-0.9) would be wrong.
    let base = HeightField::flat(3, 0);
    let craters = vec![crater(1000, 1000, 2000, 10000), crater(1000, 1000, 1000, 2000)];
    let carved = carve(&base, &craters);
    assert!(carved.heights[1 * 3 + 1].eq_val(&Rat::new(-5, 10)));
    // A base already lower than every offer stays.
    let deep = HeightField::flat(3, -9000);
    let carved_deep = carve(&deep, &craters);
    assert!(carved_deep.heights[1 * 3 + 1].eq_val(&Rat::new(-9, 1)));
}

#[test]
fn crater_order_does_not_change_the_field() {
    let base = HeightField::flat(6, 500);
    let a = crater(1500, 1500, 2500, 10000);
    let b = crater(2000, 2500, 3000, 5000);
    let c = crater(4000, 1000, 1500, 20000);
    let one_order = carve(&base, &vec![a, b, c]);
    let other_order = carve(&base, &vec![c, a, b]);
    assert_eq!(one_order.heights.len(), other_order.heights.len());
    for i in 0..one_order.heights.len() {
        assert!(one_order.heights[i].eq_val(&other_order.heights[i]), "entry {i}");
    }
}

#[test]
fn uncovered_points_keep_the_base_fraction() {
    // A small crater far from (0, 0): the far corner keeps its exact
    // base fraction, untouched.
    let base = HeightField::flat(8, 1250);
    let craters = vec![crater(6000, 6000, 1000, 10000)];
    let carved = carve(&base, &craters);
    assert_eq!(carved.heights[0], Rat::new(1250, 1000));
}

#[test]
fn carve_point_matches_field_carve() {
    let base = HeightField::flat(4, 750);
    let craters = vec![crater(1500, 1500, 2000, 10000), crater(500, 2500, 1200, 4000)];
    let carved = carve(&base, &craters);
    for x in 0..4usize {
        for z in 0..4usize {
            let direct = carve_point(Rat::new(750, 1000), &craters, x, z);
            assert_eq!(carved.heights[x * 4 + z], direct);
        }
    }
}

#[test]
fn empty_crater_field_changes_nothing() {
    let base = HeightField::flat(5, -333);
    let carved = carve(&base, &Vec::new());
    assert_eq!(carved.heights, base.heights);
    assert_eq!(carved.side, 5);
}
