//! Procedural terrain generation: a square heightmap carved by crater
//! depressions and turned into an indexed triangle mesh.
//!
//! Elevations are exact rationals and crater parameters are fixed-point
//! numbers in thousandths of a grid unit, so every stage of the pipeline
//! is computed exactly: the parabolic crater profile
//! `((d + r) * (d - r)) / depth` equals `(d*d - r*r) / depth`, which never
//! needs a square root.

use vstd::prelude::*;

pub mod crater;
pub mod field;
pub mod mesh;
pub mod rat;
pub mod rng;

use crate::crater::{crater_seq, Crater};
use crate::field::{carve, carved_pair, HeightField};
use crate::mesh::{build_mesh, index_at, quad_count, Mesh, Normal};
use crate::rng::{lemma_state_after_add, state_after, SeededRng};

verus! {

/// Largest supported grid side length. Keeps every vertex index inside
/// `u32`, the vertex count and index count inside a 32-bit `usize`, and
/// every squared distance inside `i64`.
pub const MAX_SIDE: usize = 20000;

/// Bound on the magnitude of crater coordinates, radii and depths, in
/// thousandths of a grid unit. Keeps squared distances and radii inside
/// `i64`.
pub const COORD_LIMIT_MILLI: i64 = 100000000;


/// One misconfiguration, reported instead of generating silently
/// degenerate geometry.
#[derive(Clone, Copy, Debug, PartialEq, Eq, Structural)]
pub enum ConfigError {
    SideTooSmall,
    SideTooLarge,
    RadiusNotPositive,
    RadiusRangeInverted,
    RadiusTooLarge,
    DepthNotPositive,
    DepthTooLarge,
    TooManyCraters,
}

/// The configuration of a generation run. Crater classes give a
/// half-open radius range `[lo, hi)` with `lo <= hi` (an empty range
/// means every crater of the class has radius `lo`) and a fixed depth;
/// lengths are in thousandths of a grid unit.
#[derive(Clone, Copy, Debug, PartialEq, Eq, Structural)]
pub struct GeneratorSettings {
    pub side_length: usize,
    pub sea_level_milli: i64,
    pub num_small_craters: usize,
    pub num_large_craters: usize,
    pub small_radius_lo_milli: i64,
    pub small_radius_hi_milli: i64,
    pub small_depth_milli: i64,
    pub large_radius_lo_milli: i64,
    pub large_radius_hi_milli: i64,
    pub large_depth_milli: i64,
}

/// The stock configuration: a 100-point grid at sea level zero, five
/// small craters (radius two to five units, depth ten) and two large
/// ones (radius ten to twenty units, depth ten).
pub open spec fn default_settings() -> GeneratorSettings {
    GeneratorSettings {
        side_length: 100,
        sea_level_milli: 0,
        num_small_craters: 5,
        num_large_craters: 2,
        small_radius_lo_milli: 2000int as i64,
        small_radius_hi_milli: 5000int as i64,
        small_depth_milli: 10000int as i64,
        large_radius_lo_milli: 10000int as i64,
        large_radius_hi_milli: 20000int as i64,
        large_depth_milli: 10000int as i64,
    }
}

impl Default for GeneratorSettings {
    fn default() -> (s: Self)
        ensures
            s == default_settings(),
            s.valid(),
    {
        GeneratorSettings {
            side_length: 100,
            sea_level_milli: 0,
            num_small_craters: 5,
            num_large_craters: 2,
            small_radius_lo_milli: 2000,
            small_radius_hi_milli: 5000,
            small_depth_milli: 10000,
            large_radius_lo_milli: 10000,
            large_radius_hi_milli: 20000,
            large_depth_milli: 10000,
        }
    }
}

/// The first fault of one crater class, if any.
pub open spec fn class_error_spec(lo: int, hi: int, depth: int) -> Option<ConfigError> {
    if lo <= 0 {
        Some(ConfigError::RadiusNotPositive)
    } else if hi < lo {
        Some(ConfigError::RadiusRangeInverted)
    } else if hi > COORD_LIMIT_MILLI {
        Some(ConfigError::RadiusTooLarge)
    } else if depth <= 0 {
        Some(ConfigError::DepthNotPositive)
    } else if depth > COORD_LIMIT_MILLI {
        Some(ConfigError::DepthTooLarge)
    } else {
        None
    }
}

impl GeneratorSettings {
    /// A configuration the generator accepts: a grid with at least one
    /// cell and at most `MAX_SIDE` points per side, positive radii and
    /// depths inside the fixed-point limits, radius ranges with
    /// `lo <= hi`, and a total crater count that fits `usize`.
    pub open spec fn valid(self) -> bool {
        &&& 2 <= self.side_length <= MAX_SIDE
        &&& 0 < self.small_radius_lo_milli <= self.small_radius_hi_milli <= COORD_LIMIT_MILLI
        &&& 0 < self.small_depth_milli <= COORD_LIMIT_MILLI
        &&& 0 < self.large_radius_lo_milli <= self.large_radius_hi_milli <= COORD_LIMIT_MILLI
        &&& 0 < self.large_depth_milli <= COORD_LIMIT_MILLI
        &&& self.num_small_craters + self.num_large_craters <= usize::MAX
    }

    /// The first fault of the configuration, in a fixed order: grid
    /// side, then the small crater class, then the large class, then
    /// the crater count.
    pub open spec fn validate_spec(self) -> Option<ConfigError> {
        if self.side_length < 2 {
            Some(ConfigError::SideTooSmall)
        } else if self.side_length > MAX_SIDE {
            Some(ConfigError::SideTooLarge)
        } else if class_error_spec(
            self.small_radius_lo_milli as int,
            self.small_radius_hi_milli as int,
            self.small_depth_milli as int,
        ) is Some {
            class_error_spec(
                self.small_radius_lo_milli as int,
                self.small_radius_hi_milli as int,
                self.small_depth_milli as int,
            )
        } else if class_error_spec(
            self.large_radius_lo_milli as int,
            self.large_radius_hi_milli as int,
            self.large_depth_milli as int,
        ) is Some {
            class_error_spec(
                self.large_radius_lo_milli as int,
                self.large_radius_hi_milli as int,
                self.large_depth_milli as int,
            )
        } else if self.num_small_craters > usize::MAX - self.num_large_craters {
            Some(ConfigError::TooManyCraters)
        } else {
            None
        }
    }

    /// Checks the configuration, reporting its first fault; a
    /// configuration passes if and only if it is `valid`.
    pub fn validate(&self) -> (r: Option<ConfigError>)
        ensures
            r == self.validate_spec(),
            r is None <==> self.valid(),
    {
        if self.side_length < 2 {
            Some(ConfigError::SideTooSmall)
        } else if self.side_length > MAX_SIDE {
            Some(ConfigError::SideTooLarge)
        } else if let Some(e) = class_error(
            self.small_radius_lo_milli,
            self.small_radius_hi_milli,
            self.small_depth_milli,
        ) {
            Some(e)
        } else if let Some(e) = class_error(
            self.large_radius_lo_milli,
            self.large_radius_hi_milli,
            self.large_depth_milli,
        ) {
            Some(e)
        } else if self.num_small_craters > usize::MAX - self.num_large_craters {
            Some(ConfigError::TooManyCraters)
        } else {
            None
        }
    }
}

/// Checks one crater class against `class_error_spec`.
fn class_error(lo: i64, hi: i64, depth: i64) -> (r: Option<ConfigError>)
    ensures
        r == class_error_spec(lo as int, hi as int, depth as int),
{
    if lo <= 0 {
        Some(ConfigError::RadiusNotPositive)
    } else if hi < lo {
        Some(ConfigError::RadiusRangeInverted)
    } else if hi > COORD_LIMIT_MILLI {
        Some(ConfigError::RadiusTooLarge)
    } else if depth <= 0 {
        Some(ConfigError::DepthNotPositive)
    } else if depth > COORD_LIMIT_MILLI {
        Some(ConfigError::DepthTooLarge)
    } else {
        None
    }
}

/// The crater field a valid configuration generates from the given
/// seed state: the large class first, then the small class, each
/// crater consuming three draws.
pub open spec fn pipeline_craters(s: GeneratorSettings, seed_state: u64) -> Seq<Crater> {
    crater_seq(
        seed_state,
        s.side_length as int,
        s.num_large_craters as nat,
        s.large_radius_lo_milli as int,
        s.large_radius_hi_milli as int,
        s.large_depth_milli as int,
    ) + crater_seq(
        state_after(seed_state, 3 * s.num_large_craters as nat),
        s.side_length as int,
        s.num_small_craters as nat,
        s.small_radius_lo_milli as int,
        s.small_radius_hi_milli as int,
        s.small_depth_milli as int,
    )
}

/// Generates the crater field of a configuration: first the large
/// craters, then the small ones, each with its center uniform over the
/// grid and its radius uniform over its class range.
pub fn generate_crater_field(s: &GeneratorSettings, rng: &mut SeededRng) -> (v: Vec<Crater>)
    requires
        s.valid(),
    ensures
        v@ == pipeline_craters(*s, old(rng).state),
        v@.len() == s.num_large_craters + s.num_small_craters,
        final(rng).state == state_after(
            old(rng).state,
            3 * (s.num_large_craters + s.num_small_craters) as nat,
        ),
        forall|i: int| 0 <= i < v@.len() ==> (#[trigger] v@[i]).wf(),
        forall|i: int| 0 <= i < s.num_large_craters ==> crate::crater::in_class(
            #[trigger] v@[i],
            s.side_length as int,
            s.large_radius_lo_milli as int,
            s.large_radius_hi_milli as int,
            s.large_depth_milli as int,
        ),
        forall|i: int| s.num_large_craters <= i < v@.len() ==> crate::crater::in_class(
            #[trigger] v@[i],
            s.side_length as int,
            s.small_radius_lo_milli as int,
            s.small_radius_hi_milli as int,
            s.small_depth_milli as int,
        ),
{
    let ghost s0 = rng.state;
    let mut v = crate::crater::sample_crater_class(
        rng,
        s.side_length,
        s.num_large_craters,
        s.large_radius_lo_milli,
        s.large_radius_hi_milli,
        s.large_depth_milli,
    );
    let mut small = crate::crater::sample_crater_class(
        rng,
        s.side_length,
        s.num_small_craters,
        s.small_radius_lo_milli,
        s.small_radius_hi_milli,
        s.small_depth_milli,
    );
    v.append(&mut small);
    proof {
        lemma_state_after_add(s0, 3 * s.num_large_craters as nat, 3 * s.num_small_craters as nat);
        assert(3 * s.num_large_craters as nat + 3 * s.num_small_craters as nat == 3 * (
        s.num_large_craters + s.num_small_craters) as nat);
    }
    v
}

/// Runs the whole pipeline on a configuration and a seeded random
/// source: a flat heightfield at the configured sea level, the
/// generated crater field composited into it, and the triangle mesh of
/// the carved result. An invalid configuration is refused with its
/// first fault and the random source untouched. For a valid one the
/// result is pinned exactly: every vertex sits at its lattice point
/// with the composited elevation `min(base, offers of covering
/// craters)`, every normal is the constant up vector, and the index
/// buffer lists two counter-clockwise triangles per grid cell.
pub fn generate_terrain(s: &GeneratorSettings, rng: &mut SeededRng) -> (r: Result<
    Mesh,
    ConfigError,
>)
    ensures
        r is Err <==> !s.valid(),
        r is Err ==> Some(r->Err_0) == s.validate_spec() && *final(rng) == *old(rng),
        r is Ok ==> ({
            let side = s.side_length as int;
            let cs = pipeline_craters(*s, old(rng).state);
            let m = r->Ok_0;
            &&& m.positions@.len() == side * side
            &&& m.normals@.len() == side * side
            &&& m.indices@.len() == 6 * quad_count(side)
            &&& forall|i: int| 0 <= i < side * side ==> {
                let p = #[trigger] m.positions@[i];
                &&& p.x as int == i / side
                &&& p.z as int == i % side
                &&& (p.y.num as int, p.y.den as int) == carved_pair(
                    s.sea_level_milli as int,
                    1000,
                    cs,
                    i / side,
                    i % side,
                )
            }
            &&& forall|i: int| 0 <= i < side * side ==> #[trigger] m.normals@[i] == (Normal {
                x: 0,
                y: 1,
                z: 0,
            })
            &&& forall|j: int| 0 <= j < m.indices@.len() ==> #[trigger] m.indices@[j] as int
                == index_at(side, j)
            &&& final(rng).state == state_after(
                old(rng).state,
                3 * (s.num_large_craters + s.num_small_craters) as nat,
            )
        }),
{
    if let Some(e) = s.validate() {
        return Err(e);
    }
    let base = HeightField::flat(s.side_length, s.sea_level_milli);
    let craters = generate_crater_field(s, rng);
    let carved = carve(&base, &craters);
    let m = build_mesh(&carved);
    proof {
        let side = s.side_length as int;
        let cs = pipeline_craters(*s, old(rng).state);
        assert forall|i: int| 0 <= i < side * side implies {
            let p = #[trigger] m.positions@[i];
            &&& p.x as int == i / side
            &&& p.z as int == i % side
            &&& (p.y.num as int, p.y.den as int) == carved_pair(
                s.sea_level_milli as int,
                1000,
                cs,
                i / side,
                i % side,
            )
        } by {
            vstd::arithmetic::div_mod::lemma_multiply_divide_lt(i, side, side);
            vstd::arithmetic::div_mod::lemma_mod_division_less_than_divisor(i, side);
            assert(m.positions@[i] == crate::mesh::vertex_at(carved, i));
            assert((carved.heights@[i].num as int, carved.heights@[i].den as int)
                == crate::field::carved_entry(base.heights@[i], craters@, side, i));
        };
    }
    Ok(m)
}


} // verus!
