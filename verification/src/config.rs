//! The configuration of a planet, and the builder that checks it.
//!
//! The configuration is all that is ever stored of a planet: the same
//! configuration always gives the same cells.

use vstd::prelude::*;
use vstd::string::StringExecFns;
use crate::error::{append_decimal, decimal, VoronoiError};
use crate::scalar::Scalar;

verus! {

/// The largest number of relaxation passes a configuration may ask for.
pub const MAX_LLOYD_ITERATIONS: usize = 20;

/// The pattern of 11.3, the radius of a tiny planet.
pub const TINY_RADIUS_BITS: u32 = 0x4134_cccd;

/// The pattern of 16.7, the radius of a small planet.
pub const SMALL_RADIUS_BITS: u32 = 0x4185_999a;

/// The pattern of 20.9, the radius of a medium planet.
pub const MEDIUM_RADIUS_BITS: u32 = 0x41a7_3333;

/// The pattern of 25.8, the radius of a large planet.
pub const LARGE_RADIUS_BITS: u32 = 0x41ce_6666;

/// The pattern of 0.01, the convergence threshold of a new builder.
pub const DEFAULT_CONVERGENCE_BITS: u32 = 0x3c23_d70a;

/// How large a planet is: a preset, or a cell count and radius of one's own.
#[derive(Debug, Clone, Copy, PartialEq, Eq, Structural)]
pub enum PlanetSize {
    /// 5000 cells on a radius of 11.3.
    Tiny,
    /// 11000 cells on a radius of 16.7.
    Small,
    /// 17000 cells on a radius of 20.9.
    Medium,
    /// 26000 cells on a radius of 25.8.
    Large,
    /// Any cell count and radius.
    Custom { cell_count: usize, radius: Scalar },
}

impl PlanetSize {
    /// The number of cells of this size.
    pub open spec fn cells(self) -> usize {
        match self {
            PlanetSize::Tiny => 5_000,
            PlanetSize::Small => 11_000,
            PlanetSize::Medium => 17_000,
            PlanetSize::Large => 26_000,
            PlanetSize::Custom { cell_count, .. } => cell_count,
        }
    }

    /// The radius of the sphere of this size.
    pub open spec fn sphere(self) -> Scalar {
        match self {
            PlanetSize::Tiny => Scalar { bits: TINY_RADIUS_BITS },
            PlanetSize::Small => Scalar { bits: SMALL_RADIUS_BITS },
            PlanetSize::Medium => Scalar { bits: MEDIUM_RADIUS_BITS },
            PlanetSize::Large => Scalar { bits: LARGE_RADIUS_BITS },
            PlanetSize::Custom { radius, .. } => radius,
        }
    }

    /// The number of cells of this size.
    pub fn cell_count(self) -> (count: usize)
        ensures
            count == self.cells(),
    {
        match self {
            PlanetSize::Tiny => 5_000,
            PlanetSize::Small => 11_000,
            PlanetSize::Medium => 17_000,
            PlanetSize::Large => 26_000,
            PlanetSize::Custom { cell_count, .. } => cell_count,
        }
    }

    /// The radius of the sphere of this size.
    pub fn sphere_radius(self) -> (radius: Scalar)
        ensures
            radius == self.sphere(),
    {
        match self {
            PlanetSize::Tiny => Scalar { bits: TINY_RADIUS_BITS },
            PlanetSize::Small => Scalar { bits: SMALL_RADIUS_BITS },
            PlanetSize::Medium => Scalar { bits: MEDIUM_RADIUS_BITS },
            PlanetSize::Large => Scalar { bits: LARGE_RADIUS_BITS },
            PlanetSize::Custom { radius, .. } => radius,
        }
    }

    /// The name of this size.
    pub fn name(self) -> (name: &'static str)
        ensures
            name@ == match self {
                PlanetSize::Tiny => "Tiny"@,
                PlanetSize::Small => "Small"@,
                PlanetSize::Medium => "Medium"@,
                PlanetSize::Large => "Large"@,
                PlanetSize::Custom { .. } => "Custom"@,
            },
    {
        match self {
            PlanetSize::Tiny => "Tiny",
            PlanetSize::Small => "Small",
            PlanetSize::Medium => "Medium",
            PlanetSize::Large => "Large",
            PlanetSize::Custom { .. } => "Custom",
        }
    }
}

impl Default for PlanetSize {
    /// A large planet.
    fn default() -> (size: Self)
        ensures
            size == PlanetSize::Large,
    {
        PlanetSize::Large
    }
}

/// The configuration of a planet.
#[derive(Debug, Clone, Copy, PartialEq, Eq, Structural)]
pub struct PlanetConfig {
    /// The seed of the point placement.
    pub seed: u32,
    /// Cell count and radius.
    pub planet_size: PlanetSize,
    /// The largest number of relaxation passes; 0 leaves the points as
    /// placed.
    pub lloyd_iterations: usize,
    /// Relaxation stops once no point moves further than this fraction of
    /// the radius; 0 runs every pass.
    pub lloyd_convergence: Scalar,
    /// The seed of the terrain.
    pub terrain_seed: u32,
    /// A radius to use in place of that of the size.
    pub radius_override: Option<Scalar>,
}

impl PlanetConfig {
    /// Whether the values are within what the builder lets through: at most
    /// 20 passes, a threshold that is not below zero, and an override, if
    /// any, that is not zero or below.
    pub open spec fn valid(self) -> bool {
        &&& self.lloyd_iterations <= MAX_LLOYD_ITERATIONS
        &&& !self.lloyd_convergence.less((Scalar { bits: 0 }))
        &&& self.radius_override matches Some(radius) ==> !radius.less_eq((Scalar { bits: 0 }))
    }

    /// The radius in force: the override if there is one, else that of the
    /// size.
    pub open spec fn radius_in_force(self) -> Scalar {
        match self.radius_override {
            Some(radius) => radius,
            None => self.planet_size.sphere(),
        }
    }

    /// The number of cells.
    pub fn cell_count(&self) -> (count: usize)
        ensures
            count == self.planet_size.cells(),
    {
        self.planet_size.cell_count()
    }

    /// The radius in force.
    pub fn radius(&self) -> (radius: Scalar)
        ensures
            radius == self.radius_in_force(),
    {
        match self.radius_override {
            Some(radius) => radius,
            None => self.planet_size.sphere_radius(),
        }
    }

    /// The radius in force; an older name of [`PlanetConfig::radius`].
    pub fn sphere_radius(&self) -> (radius: Scalar)
        ensures
            radius == self.radius_in_force(),
    {
        self.radius()
    }
}

impl Default for PlanetConfig {
    /// What a new builder builds: a large planet with a seed drawn at
    /// random.
    fn default() -> (config: Self)
        ensures
            config.valid(),
            config.planet_size == PlanetSize::Large,
            config.lloyd_iterations == 5,
            config.lloyd_convergence.bits == DEFAULT_CONVERGENCE_BITS,
            config.terrain_seed == config.seed,
            config.radius_override is None,
    {
        PlanetConfigBuilder::new().finish(random_seed())
    }
}

/// A seed drawn by `rand::random`, which reads the thread's generator.
/// Nothing is known of the number that comes back.
#[verifier::external_body]
fn random_seed() -> (seed: u32) {
    rand::random::<u32>()
}

/// What a builder holds.
pub struct BuilderState {
    pub seed: Option<u32>,
    pub planet_size: PlanetSize,
    pub lloyd_iterations: usize,
    pub lloyd_convergence: Scalar,
    pub terrain_seed: Option<u32>,
    pub radius_override: Option<Scalar>,
}

impl BuilderState {
    /// The configuration that these values give with `drawn` for a seed
    /// that was not set. A terrain seed that was not set follows the seed.
    pub open spec fn config(self, drawn: u32) -> PlanetConfig {
        let seed = match self.seed {
            Some(seed) => seed,
            None => drawn,
        };
        PlanetConfig {
            seed,
            planet_size: self.planet_size,
            lloyd_iterations: self.lloyd_iterations,
            lloyd_convergence: self.lloyd_convergence,
            terrain_seed: match self.terrain_seed {
                Some(terrain_seed) => terrain_seed,
                None => seed,
            },
            radius_override: self.radius_override,
        }
    }
}

/// Collects the values of a configuration and refuses those out of range.
#[derive(Debug)]
pub struct PlanetConfigBuilder {
    seed: Option<u32>,
    planet_size: PlanetSize,
    lloyd_iterations: usize,
    lloyd_convergence: Scalar,
    terrain_seed: Option<u32>,
    radius_override: Option<Scalar>,
}

/// The text of the error for too many passes.
pub open spec fn iterations_message(iterations: usize) -> Seq<char> {
    "Lloyd iterations must be <= 20 (got "@ + decimal(iterations as nat) + ")"@
}

impl PlanetConfigBuilder {
    /// Every builder holds values in range.
    #[verifier::type_invariant]
    spec fn in_range(self) -> bool {
        &&& self.lloyd_iterations <= MAX_LLOYD_ITERATIONS
        &&& !self.lloyd_convergence.less((Scalar { bits: 0 }))
        &&& self.radius_override matches Some(radius) ==> !radius.less_eq((Scalar { bits: 0 }))
    }

    /// The values held.
    pub closed spec fn state(self) -> BuilderState {
        BuilderState {
            seed: self.seed,
            planet_size: self.planet_size,
            lloyd_iterations: self.lloyd_iterations,
            lloyd_convergence: self.lloyd_convergence,
            terrain_seed: self.terrain_seed,
            radius_override: self.radius_override,
        }
    }

    /// A builder with no seed set, a large planet, 5 passes, a threshold of
    /// 0.01 and no radius override.
    pub fn new() -> (builder: Self)
        ensures
            builder.state() == (BuilderState {
                seed: None,
                planet_size: PlanetSize::Large,
                lloyd_iterations: 5,
                lloyd_convergence: Scalar { bits: DEFAULT_CONVERGENCE_BITS },
                terrain_seed: None,
                radius_override: None,
            }),
    {
        PlanetConfigBuilder {
            seed: None,
            planet_size: PlanetSize::Large,
            lloyd_iterations: 5,
            lloyd_convergence: Scalar { bits: DEFAULT_CONVERGENCE_BITS },
            terrain_seed: None,
            radius_override: None,
        }
    }

    /// Sets the seed.
    pub fn seed(self, seed: u32) -> (builder: Self)
        ensures
            builder.state() == (BuilderState { seed: Some(seed), ..self.state() }),
    {
        proof {
            use_type_invariant(&self);
        }
        PlanetConfigBuilder {
            seed: Some(seed),
            planet_size: self.planet_size,
            lloyd_iterations: self.lloyd_iterations,
            lloyd_convergence: self.lloyd_convergence,
            terrain_seed: self.terrain_seed,
            radius_override: self.radius_override,
        }
    }

    /// Sets the size.
    pub fn planet_size(self, size: PlanetSize) -> (builder: Self)
        ensures
            builder.state() == (BuilderState { planet_size: size, ..self.state() }),
    {
        proof {
            use_type_invariant(&self);
        }
        PlanetConfigBuilder {
            seed: self.seed,
            planet_size: size,
            lloyd_iterations: self.lloyd_iterations,
            lloyd_convergence: self.lloyd_convergence,
            terrain_seed: self.terrain_seed,
            radius_override: self.radius_override,
        }
    }

    /// Sets the number of relaxation passes. More than 20 are refused.
    pub fn lloyd_iterations(self, iterations: usize) -> (result: Result<Self, VoronoiError>)
        ensures
            match result {
                Ok(builder) => iterations <= MAX_LLOYD_ITERATIONS && builder.state() == (
                BuilderState { lloyd_iterations: iterations, ..self.state() }),
                Err(VoronoiError::InvalidConfig(text)) => iterations > MAX_LLOYD_ITERATIONS
                    && text@ == iterations_message(iterations),
                Err(_) => false,
            },
    {
        proof {
            use_type_invariant(&self);
        }
        if iterations > MAX_LLOYD_ITERATIONS {
            let mut text = String::from_str("Lloyd iterations must be <= 20 (got ");
            append_decimal(&mut text, iterations);
            text.append(")");
            return Err(VoronoiError::InvalidConfig(text));
        }
        Ok(
            PlanetConfigBuilder {
                seed: self.seed,
                planet_size: self.planet_size,
                lloyd_iterations: iterations,
                lloyd_convergence: self.lloyd_convergence,
                terrain_seed: self.terrain_seed,
                radius_override: self.radius_override,
            },
        )
    }

    /// Sets the convergence threshold, a fraction of the radius. A threshold
    /// below zero is refused; zero switches early stopping off.
    pub fn lloyd_convergence(self, threshold: Scalar) -> (result: Result<Self, VoronoiError>)
        ensures
            match result {
                Ok(builder) => !threshold.less((Scalar { bits: 0 })) && builder.state() == (
                BuilderState { lloyd_convergence: threshold, ..self.state() }),
                Err(VoronoiError::InvalidConfig(text)) => threshold.less((Scalar { bits: 0 }))
                    && text@ == "Lloyd convergence threshold must be >= 0"@,
                Err(_) => false,
            },
    {
        proof {
            use_type_invariant(&self);
        }
        if threshold.is_negative() {
            return Err(
                VoronoiError::InvalidConfig(
                    String::from_str("Lloyd convergence threshold must be >= 0"),
                ),
            );
        }
        Ok(
            PlanetConfigBuilder {
                seed: self.seed,
                planet_size: self.planet_size,
                lloyd_iterations: self.lloyd_iterations,
                lloyd_convergence: threshold,
                terrain_seed: self.terrain_seed,
                radius_override: self.radius_override,
            },
        )
    }

    /// Sets the terrain seed. Without it the terrain seed is the seed.
    pub fn terrain_seed(self, seed: u32) -> (builder: Self)
        ensures
            builder.state() == (BuilderState { terrain_seed: Some(seed), ..self.state() }),
    {
        proof {
            use_type_invariant(&self);
        }
        PlanetConfigBuilder {
            seed: self.seed,
            planet_size: self.planet_size,
            lloyd_iterations: self.lloyd_iterations,
            lloyd_convergence: self.lloyd_convergence,
            terrain_seed: Some(seed),
            radius_override: self.radius_override,
        }
    }

    /// Sets a radius to use in place of that of the size. A radius of zero
    /// or below is refused.
    pub fn radius_override(self, radius: Scalar) -> (result: Result<Self, VoronoiError>)
        ensures
            match result {
                Ok(builder) => !radius.less_eq((Scalar { bits: 0 })) && builder.state() == (
                BuilderState { radius_override: Some(radius), ..self.state() }),
                Err(VoronoiError::InvalidConfig(text)) => radius.less_eq((Scalar { bits: 0 }))
                    && text@ == "Radius override must be positive"@,
                Err(_) => false,
            },
    {
        proof {
            use_type_invariant(&self);
        }
        if radius.le(Scalar::zero()) {
            return Err(
                VoronoiError::InvalidConfig(String::from_str("Radius override must be positive")),
            );
        }
        Ok(
            PlanetConfigBuilder {
                seed: self.seed,
                planet_size: self.planet_size,
                lloyd_iterations: self.lloyd_iterations,
                lloyd_convergence: self.lloyd_convergence,
                terrain_seed: self.terrain_seed,
                radius_override: Some(radius),
            },
        )
    }

    /// The configuration, with `drawn` for the seed if none was set.
    pub fn finish(self, drawn: u32) -> (config: PlanetConfig)
        ensures
            config == self.state().config(drawn),
            config.valid(),
    {
        proof {
            use_type_invariant(&self);
        }
        let seed = match self.seed {
            Some(seed) => seed,
            None => drawn,
        };
        let terrain_seed = match self.terrain_seed {
            Some(terrain_seed) => terrain_seed,
            None => seed,
        };
        PlanetConfig {
            seed,
            planet_size: self.planet_size,
            lloyd_iterations: self.lloyd_iterations,
            lloyd_convergence: self.lloyd_convergence,
            terrain_seed,
            radius_override: self.radius_override,
        }
    }

    /// The configuration. A seed that was not set is drawn at random, so the
    /// result is then one of the configurations that `finish` gives; with a
    /// seed set it is the one that `finish` gives for any draw.
    pub fn build(self) -> (result: Result<PlanetConfig, VoronoiError>)
        ensures
            match result {
                Ok(config) => config.valid() && exists|drawn: u32|
                    config == #[trigger] self.state().config(drawn),
                Err(_) => false,
            },
    {
        let drawn = match self.seed {
            Some(seed) => seed,
            None => random_seed(),
        };
        let config = self.finish(drawn);
        Ok(config)
    }
}

impl Clone for PlanetConfigBuilder {
    fn clone(&self) -> (builder: Self)
        ensures
            builder.state() == self.state(),
    {
        proof {
            use_type_invariant(self);
        }
        PlanetConfigBuilder {
            seed: self.seed,
            planet_size: self.planet_size,
            lloyd_iterations: self.lloyd_iterations,
            lloyd_convergence: self.lloyd_convergence,
            terrain_seed: self.terrain_seed,
            radius_override: self.radius_override,
        }
    }
}

impl Default for PlanetConfigBuilder {
    fn default() -> (builder: Self)
        ensures
            builder.state() == (BuilderState {
                seed: None,
                planet_size: PlanetSize::Large,
                lloyd_iterations: 5,
                lloyd_convergence: Scalar { bits: DEFAULT_CONVERGENCE_BITS },
                terrain_seed: None,
                radius_override: None,
            }),
    {
        PlanetConfigBuilder::new()
    }
}

/// With a seed set, the draw does not matter: every draw gives the same
/// configuration.
pub proof fn lemma_seeded_build_is_determined(state: BuilderState, first: u32, second: u32)
    requires
        state.seed is Some,
    ensures
        state.config(first) == state.config(second),
{
}

} // verus!
