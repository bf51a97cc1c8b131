use vstd::prelude::*;

verus! {

/// Errors of an interpolation query.
#[derive(Debug, Clone, Copy, PartialEq, Eq, Structural)]
pub enum InterpolatorError {
    /// A walk around a site or around the insertion envelope took more steps
    /// than the degree limit allows; the limit is carried.
    TooManyNeighbors(usize),
    /// The number of values differs from the number of sites.
    DifferentNumberOfPointsAndValues,
}

/// Errors of building a triangulation.
#[derive(Debug, Clone, Copy, PartialEq, Eq, Structural)]
pub enum TriangulationError {
    /// The corner list does not hold whole triangles.
    IncompleteTriangle,
    /// The twin list and the corner list differ in length.
    LengthMismatch,
    /// The corner at this half-edge names no site.
    SiteOutOfRange(usize),
    /// The twin of this half-edge does not point back to it.
    TwinMismatch(usize),
    /// The sites span no triangle (fewer than three of them, or all on one line).
    Degenerate,
    /// The site at this index has a coordinate that is not finite, or whose
    /// magnitude reaches 2^64.
    InvalidSite(usize),
}

} // verus!
