//! Configuration validation, seeded crater generation, and the
//! end-to-end pipeline.

use crater_terrain::crater::sample_crater_class;
use crater_terrain::field::HeightField;
use crater_terrain::rng::SeededRng;
use crater_terrain::{generate_crater_field, generate_terrain, ConfigError, GeneratorSettings};

#[test]
fn default_settings_are_valid() {
    let s = GeneratorSettings::default();
    assert_eq!(s.side_length, 100);
    assert_eq!(s.sea_level_milli, 0);
    assert_eq!(s.num_small_craters, 5);
    assert_eq!(s.num_large_craters, 2);
    assert_eq!((s.small_radius_lo_milli, s.small_radius_hi_milli), (2000, 5000));
    assert_eq!((s.large_radius_lo_milli, s.large_radius_hi_milli), (10000, 20000));
    assert_eq!(s.small_depth_milli, 10000);
    assert_eq!(s.large_depth_milli, 10000);
    assert_eq!(s.validate(), None);
}

#[test]
fn each_misconfiguration_is_reported() {
    let good = GeneratorSettings::default();

    let mut s = good;
    s.side_length = 1;
    assert_eq!(s.validate(), Some(ConfigError::SideTooSmall));

    s = good;
    s.side_length = 20001;
    assert_eq!(s.validate(), Some(ConfigError::SideTooLarge));

    s = good;
    s.small_radius_lo_milli = 0;
    assert_eq!(s.validate(), Some(ConfigError::RadiusNotPositive));

    s = good;
    s.large_radius_hi_milli = s.large_radius_lo_milli - 1;
    assert_eq!(s.validate(), Some(ConfigError::RadiusRangeInverted));

    s = good;
    s.small_radius_hi_milli = 100_000_001;
    assert_eq!(s.validate(), Some(ConfigError::RadiusTooLarge));

    s = good;
    s.large_depth_milli = 0;
    assert_eq!(s.validate(), Some(ConfigError::DepthNotPositive));

    s = good;
    s.small_depth_milli = 100_000_001;
    assert_eq!(s.validate(), Some(ConfigError::DepthTooLarge));

    s = good;
    s.num_small_craters = usize::MAX;
    s.num_large_craters = 1;
    assert_eq!(s.validate(), Some(ConfigError::TooManyCraters));
}

#[test]
fn boundary_settings_pass_validation() {
    let mut s = GeneratorSettings::default();
    s.side_length = 2;
    assert_eq!(s.validate(), None);
    s.side_length = 20000;
    assert_eq!(s.validate(), None);
    // An empty radius range is allowed: every crater of the class then
    // has the same radius.
    s.side_length = 100;
    s.small_radius_hi_milli = s.small_radius_lo_milli;
    assert_eq!(s.validate(), None);
}

#[test]
fn invalid_settings_are_refused_end_to_end() {
    let mut s = GeneratorSettings::default();
    s.side_length = 1;
    let mut rng = SeededRng::new(7);
    let refused = generate_terrain(&s, &mut rng);
    assert!(matches!(refused, Err(ConfigError::SideTooSmall)));
    // The random source is untouched by a refused run.
    assert_eq!(rng.state, 7);
}

#[test]
fn same_seed_reproduces_the_crater_field() {
    let s = GeneratorSettings::default();
    let mut rng_a = SeededRng::new(123456789);
    let mut rng_b = SeededRng::new(123456789);
    let field_a = generate_crater_field(&s, &mut rng_a);
    let field_b = generate_crater_field(&s, &mut rng_b);
    assert_eq!(field_a, field_b);
    assert_eq!(rng_a.state, rng_b.state);
}

#[test]
fn crater_field_respects_counts_and_ranges() {
    let s = GeneratorSettings::default();
    let mut rng = SeededRng::new(42);
    let field = generate_crater_field(&s, &mut rng);
    assert_eq!(field.len(), 7);
    // Large class first, then small.
    for c in &field[..2] {
        assert!(10000 <= c.radius_milli && c.radius_milli < 20000);
        assert_eq!(c.depth_milli, 10000);
    }
    for c in &field[2..] {
        assert!(2000 <= c.radius_milli && c.radius_milli < 5000);
        assert_eq!(c.depth_milli, 10000);
    }
    for c in &field {
        assert!(0 <= c.cx_milli && c.cx_milli < 100_000);
        assert!(0 <= c.cz_milli && c.cz_milli < 100_000);
    }
}

#[test]
fn empty_radius_range_gives_identical_radii() {
    let mut rng = SeededRng::new(99);
    let craters = sample_crater_class(&mut rng, 50, 4, 3000, 3000, 10000);
    assert_eq!(craters.len(), 4);
    for c in &craters {
        assert_eq!(c.radius_milli, 3000);
    }
}

#[test]
fn different_seeds_give_different_fields() {
    // Not guaranteed for every pair of seeds, but these two differ.
    let s = GeneratorSettings::default();
    let mut rng_a = SeededRng::new(1);
    let mut rng_b = SeededRng::new(2);
    let field_a = generate_crater_field(&s, &mut rng_a);
    let field_b = generate_crater_field(&s, &mut rng_b);
    assert_ne!(field_a, field_b);
}

#[test]
fn generate_terrain_emits_the_configured_mesh() {
    let mut s = GeneratorSettings::default();
    s.side_length = 16;
    let mut rng = SeededRng::new(2024);
    let mesh = generate_terrain(&s, &mut rng).unwrap();
    assert_eq!(mesh.positions.len(), 256);
    assert_eq!(mesh.normals.len(), 256);
    assert_eq!(mesh.indices.len(), 6 * 15 * 15);
    for x in 0..16usize {
        for z in 0..16usize {
            let v = mesh.positions[x * 16 + z];
            assert_eq!((v.x, v.z), (x, z));
            assert!(v.y.den > 0);
        }
    }
}

#[test]
fn generate_terrain_is_reproducible() {
    let s = GeneratorSettings::default();
    let mut rng_a = SeededRng::new(5150);
    let mut rng_b = SeededRng::new(5150);
    let mesh_a = generate_terrain(&s, &mut rng_a).unwrap();
    let mesh_b = generate_terrain(&s, &mut rng_b).unwrap();
    assert_eq!(mesh_a.positions, mesh_b.positions);
    assert_eq!(mesh_a.indices, mesh_b.indices);
}

#[test]
fn uniform_base_sampler_stays_in_range() {
    let mut rng = SeededRng::new(314159);
    let field = HeightField::sample_uniform(10, 0, 1000, &mut rng);
    assert_eq!(field.side, 10);
    assert_eq!(field.heights.len(), 100);
    for h in &field.heights {
        assert!(0 <= h.num && h.num < 1000);
        assert_eq!(h.den, 1000);
    }
}
