//! Terrain: the kinds of ground, and the sampler that decides them.

pub mod perlin;

use vstd::prelude::*;
use crate::point::Point3;
use crate::scalar::Scalar;

verus! {

/// The kinds of ground.
#[derive(Debug, Clone, Copy, PartialEq, Eq, Hash, Structural)]
pub enum BasicTerrainType {
    /// Deep water.
    Ocean,
    /// The strip between water and land.
    Beach,
    /// Plains and grassland.
    Land,
    /// Hills and mountains.
    Mountain,
    /// The frozen caps.
    Ice,
}

impl BasicTerrainType {
    /// Whether this is water: only the ocean is.
    pub fn is_water(&self) -> (water: bool)
        ensures
            water == (*self == BasicTerrainType::Ocean),
    {
        match self {
            BasicTerrainType::Ocean => true,
            _ => false,
        }
    }

    /// Whether this is ground to walk on: everything but water.
    pub fn is_land(&self) -> (land: bool)
        ensures
            land == (*self != BasicTerrainType::Ocean),
    {
        !self.is_water()
    }
}

impl Default for BasicTerrainType {
    /// Land.
    fn default() -> (terrain: Self)
        ensures
            terrain == BasicTerrainType::Land,
    {
        BasicTerrainType::Land
    }
}

/// Every kind of ground is water or land, and none is both.
pub proof fn lemma_water_or_land(terrain: BasicTerrainType)
    ensures
        (terrain == BasicTerrainType::Ocean) != (terrain != BasicTerrainType::Ocean),
{
}

/// The limits by which an elevation becomes a terrain.
#[derive(Debug, Clone, Copy, PartialEq, Eq, Structural)]
pub struct TerrainThresholds {
    /// Below this elevation lies the ocean.
    pub ocean: Scalar,
    /// Below this elevation, and not below `ocean`, lies beach.
    pub beach: Scalar,
    /// Above this elevation stand mountains.
    pub mountain: Scalar,
    /// Beyond this latitude, as a fraction of the radius, lies ice.
    pub ice_cap_latitude: Scalar,
}

impl TerrainThresholds {
    /// Whether a latitude lies under the ice: strictly beyond the cap.
    pub open spec fn under_ice(self, latitude: Scalar) -> bool {
        self.ice_cap_latitude.less(latitude)
    }

    /// The terrain at an elevation away from the ice.
    pub open spec fn terrain_at(self, elevation: Scalar) -> BasicTerrainType {
        if elevation.less(self.ocean) {
            BasicTerrainType::Ocean
        } else if elevation.less(self.beach) {
            BasicTerrainType::Beach
        } else if self.mountain.less(elevation) {
            BasicTerrainType::Mountain
        } else {
            BasicTerrainType::Land
        }
    }

    /// Whether a latitude, as a fraction of the radius and without sign,
    /// lies under the ice.
    pub fn is_ice_cap(&self, latitude: Scalar) -> (ice: bool)
        ensures
            ice == self.under_ice(latitude),
    {
        self.ice_cap_latitude.lt(latitude)
    }

    /// The terrain at an elevation away from the ice: ocean below the ocean
    /// limit, beach from there to the beach limit, mountain above the
    /// mountain limit, and land between. An elevation that is no number is
    /// land.
    pub fn classify(&self, elevation: Scalar) -> (terrain: BasicTerrainType)
        ensures
            terrain == self.terrain_at(elevation),
    {
        if elevation.lt(self.ocean) {
            BasicTerrainType::Ocean
        } else if elevation.lt(self.beach) {
            BasicTerrainType::Beach
        } else if self.mountain.lt(elevation) {
            BasicTerrainType::Mountain
        } else {
            BasicTerrainType::Land
        }
    }
}

/// Classifying by elevation never gives ice, and gives water exactly below
/// the ocean limit.
pub proof fn lemma_classified_terrain(thresholds: TerrainThresholds, elevation: Scalar)
    ensures
        thresholds.terrain_at(elevation) != BasicTerrainType::Ice,
        thresholds.terrain_at(elevation) == BasicTerrainType::Ocean <==> elevation.less(
            thresholds.ocean,
        ),
{
}

/// Decides the terrain at a point of the sphere.
///
/// The planet asks once for each cell, at the cell's centre.
pub trait TerrainSampler {
    /// What the sampler makes of a point.
    type Output;

    /// The terrain at `position` on a sphere of the given radius.
    fn sample(&self, position: Point3, radius: Scalar) -> Self::Output;
}

} // verus!
