//! Edit requests: a ray, an edit shape, and the density/material to write.
//! A request is transient — produced and consumed within one tick.

use vstd::prelude::*;
use crate::cell::CellType;
use crate::math::MilliVec3;

verus! {

/// The shape of the edited region, in milli-units.
#[derive(Clone, Copy, Debug, PartialEq, Eq, Structural)]
pub enum TerrainEditShape {
    Sphere(u32),
}

/// A terrain edit request: a ray (origin and direction, both in milli-units;
/// the direction need not be normalized for the core, the collision
/// collaborator resolves the hit), the region shape, the new milli-density,
/// and optionally a new material.
#[derive(Clone, Copy, Debug, PartialEq, Eq, Structural)]
pub struct TerrainCellEvent {
    pub origin: MilliVec3,
    pub dir: MilliVec3,
    pub value: u32,
    pub shape: TerrainEditShape,
    pub cell_type: Option<CellType>,
}

/// The radius of the request's edit region, in milli-units.
pub open spec fn event_radius(e: TerrainCellEvent) -> int {
    match e.shape {
        TerrainEditShape::Sphere(r) => r as int,
    }
}

} // verus!
