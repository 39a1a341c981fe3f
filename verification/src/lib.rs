//! A verified engine for editing and rendering linear vector features
//! (roads, rivers, rail) shaped as chains of cubic Bezier segments.
//!
//! The library works on a flat 2D plane with exact integer coordinates.
//! A compound curve is an ordered chain of cubic segments that share their
//! end anchors; editing a control point propagates to the neighbouring
//! segment so that the chain stays connected and, for tangent handles,
//! mirror-symmetric around the shared anchor. Each segment tessellates
//! into a polyline at a configurable resolution, and the whole chain
//! derives a closed offset polygon (the feature's surface band).

use vstd::prelude::*;

pub mod compound;
pub mod geometry;
pub mod num;
pub mod segment;
pub mod surface;

verus! {

/// Error condition for callers that hand in a parameter outside its
/// documented range (for example a tessellation resolution of zero).
#[derive(Clone, Copy, Debug, PartialEq, Eq, Structural)]
pub enum CurveError {
    InvalidParameter,
}

} // verus!
