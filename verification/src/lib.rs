//! Voronoi tessellation of a sphere: the cell graph of a planet.
//!
//! A planet is a sphere cut into convex cells, one round each seed point.
//! This library holds the part of that which is exact: the configuration
//! and its checks, the graph of cells that a triangulation of the seed
//! points gives, and the questions a finished planet answers. Numbers that
//! are not integers (coordinates, radii, angles) are carried through as bit
//! patterns and never computed with; see [`scalar`].

pub mod cell;
pub mod config;
pub mod error;
pub mod generation;
pub mod graph;
pub mod mesh;
pub mod planet;
pub mod point;
pub mod scalar;
pub mod spatial;
pub mod terrain;

pub use cell::VoronoiCell;
pub use config::{PlanetConfig, PlanetConfigBuilder, PlanetSize};
pub use error::VoronoiError;
pub use generation::delaunay::DelaunayResult;
pub use generation::lloyd::LloydOptions;
pub use generation::voronoi::{RawCell, TriangleGeometry};
pub use planet::VoronoiPlanet;
pub use point::Point3;
pub use scalar::Scalar;
pub use terrain::{BasicTerrainType, TerrainSampler};
pub use mesh::colors::{BasicColorMapper, ColorMapper, CustomColorMapper, TerrainColor};
pub use mesh::{generate_mesh, generate_mesh_with_visibility, MeshData};
