//! The colours of the terrain.

use vstd::prelude::*;
use crate::scalar::Scalar;
use crate::terrain::BasicTerrainType;

verus! {

/// A colour: red, green, blue and opacity, each between 0 and 1.
pub type TerrainColor = [Scalar; 4];

/// Gives each terrain its colour.
pub trait ColorMapper<T> {
    /// The colour of `terrain`.
    fn map_color(&self, terrain: &T) -> TerrainColor;
}

/// The pattern of 1.
pub const ONE_BITS: u32 = 0x3f80_0000;

/// The channels of a colour as bit patterns.
pub open spec fn channels(color: TerrainColor) -> (u32, u32, u32, u32) {
    (color[0].bits, color[1].bits, color[2].bits, color[3].bits)
}

/// The usual colour of each terrain, as the patterns of its channels: a
/// deep blue ocean (0.1, 0.3, 0.7), sandy beaches (0.9, 0.8, 0.5), green
/// land (0.2, 0.6, 0.2), grey mountains (0.5, 0.5, 0.5) and blue-white ice
/// (0.95, 0.95, 1), all opaque.
pub open spec fn usual_channels(terrain: BasicTerrainType) -> (u32, u32, u32, u32) {
    match terrain {
        BasicTerrainType::Ocean => (0x3dcc_cccd, 0x3e99_999a, 0x3f33_3333, ONE_BITS),
        BasicTerrainType::Beach => (0x3f66_6666, 0x3f4c_cccd, 0x3f00_0000, ONE_BITS),
        BasicTerrainType::Land => (0x3e4c_cccd, 0x3f19_999a, 0x3e4c_cccd, ONE_BITS),
        BasicTerrainType::Mountain => (0x3f00_0000, 0x3f00_0000, 0x3f00_0000, ONE_BITS),
        BasicTerrainType::Ice => (0x3f73_3333, 0x3f73_3333, ONE_BITS, ONE_BITS),
    }
}

/// The colour with the given channel patterns.
fn color_of(red: u32, green: u32, blue: u32, opacity: u32) -> (color: TerrainColor)
    ensures
        channels(color) == (red, green, blue, opacity),
{
    [Scalar { bits: red }, Scalar { bits: green }, Scalar { bits: blue }, Scalar { bits: opacity }]
}

/// The usual colour of a terrain.
fn usual_color(terrain: &BasicTerrainType) -> (color: TerrainColor)
    ensures
        channels(color) == usual_channels(*terrain),
{
    match terrain {
        BasicTerrainType::Ocean => color_of(0x3dcc_cccd, 0x3e99_999a, 0x3f33_3333, ONE_BITS),
        BasicTerrainType::Beach => color_of(0x3f66_6666, 0x3f4c_cccd, 0x3f00_0000, ONE_BITS),
        BasicTerrainType::Land => color_of(0x3e4c_cccd, 0x3f19_999a, 0x3e4c_cccd, ONE_BITS),
        BasicTerrainType::Mountain => color_of(0x3f00_0000, 0x3f00_0000, 0x3f00_0000, ONE_BITS),
        BasicTerrainType::Ice => color_of(0x3f73_3333, 0x3f73_3333, ONE_BITS, ONE_BITS),
    }
}

/// Maps each terrain to its usual colour.
#[derive(Debug, Clone, Copy, Default)]
pub struct BasicColorMapper;

impl ColorMapper<BasicTerrainType> for BasicColorMapper {
    fn map_color(&self, terrain: &BasicTerrainType) -> (color: TerrainColor)
        ensures
            channels(color) == usual_channels(*terrain),
    {
        usual_color(terrain)
    }
}

/// Maps each terrain to a colour of one's choice.
#[derive(Debug, Clone)]
pub struct CustomColorMapper {
    pub ocean: TerrainColor,
    pub beach: TerrainColor,
    pub land: TerrainColor,
    pub mountain: TerrainColor,
    pub ice: TerrainColor,
}

impl CustomColorMapper {
    /// The colour chosen for a terrain.
    pub open spec fn chosen(self, terrain: BasicTerrainType) -> TerrainColor {
        match terrain {
            BasicTerrainType::Ocean => self.ocean,
            BasicTerrainType::Beach => self.beach,
            BasicTerrainType::Land => self.land,
            BasicTerrainType::Mountain => self.mountain,
            BasicTerrainType::Ice => self.ice,
        }
    }
}

impl Default for CustomColorMapper {
    /// The usual colours.
    fn default() -> (mapper: Self)
        ensures
            forall|terrain: BasicTerrainType|
                channels(#[trigger] mapper.chosen(terrain)) == usual_channels(terrain),
    {
        CustomColorMapper {
            ocean: usual_color(&BasicTerrainType::Ocean),
            beach: usual_color(&BasicTerrainType::Beach),
            land: usual_color(&BasicTerrainType::Land),
            mountain: usual_color(&BasicTerrainType::Mountain),
            ice: usual_color(&BasicTerrainType::Ice),
        }
    }
}

impl ColorMapper<BasicTerrainType> for CustomColorMapper {
    fn map_color(&self, terrain: &BasicTerrainType) -> (color: TerrainColor)
        ensures
            color == self.chosen(*terrain),
    {
        match terrain {
            BasicTerrainType::Ocean => self.ocean,
            BasicTerrainType::Beach => self.beach,
            BasicTerrainType::Land => self.land,
            BasicTerrainType::Mountain => self.mountain,
            BasicTerrainType::Ice => self.ice,
        }
    }
}

} // verus!
