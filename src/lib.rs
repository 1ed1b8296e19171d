//! Exact planar Delaunay triangulation, its Voronoi dual and Lloyd
//! relaxation, over sites on an integer grid.
//!
//! Sites have integer coordinates bounded by `geometry::COORD_LIMIT`, so the
//! orientation and in-circle predicates are evaluated exactly and never
//! contradict each other. Voronoi vertices are rational points.

pub mod geometry;
pub mod delaunay;
pub mod dual;
pub mod voronoi;
pub mod sampler;
pub mod relax;
