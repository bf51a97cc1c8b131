//! Natural neighbor (Sibson) interpolation over a planar Delaunay triangulation.
//!
//! The library holds the combinatorial side of the method: the half-edge model
//! of the triangulation, the walk around the insertion envelope of a query
//! point, the fans of triangles that bound each natural neighbor's Voronoi cell,
//! the point-location decisions, and the guard that bounds every walk. The
//! geometric tests that steer a walk (whether a circumcircle holds the query)
//! are supplied by the caller as predicates.

pub mod envelope;
pub mod error;
pub mod locate;
pub mod mesh;

pub use envelope::{NeighborCell, Triple, DEFAULT_DEGREE_LIMITATION};
pub use error::{InterpolatorError, TriangulationError};
pub use locate::Location;
pub use mesh::{next_harfedge, Triangulation};
