//! Density samples: a cell couples a milli-density with a material, materials
//! are classified from a second noise channel by fixed threshold bands, and
//! each material has a fixed display color.

use vstd::prelude::*;

verus! {

/// The density threshold separating solid from empty, in milli-density.
pub const ISO_MILLI: u32 = 500;

/// The material carried by a cell. Bands for the rarer materials are narrow
/// by design, so that they stay scarce.
#[derive(Clone, Copy, Debug, PartialEq, Eq, Structural)]
pub enum CellType {
    Stone,
    Granite,
    Dirt,
    Iron,
    Gold,
    Ruby,
}

impl Default for CellType {
    fn default() -> (r: CellType)
        ensures
            r == CellType::Stone,
    {
        CellType::Stone
    }
}

/// One sample of the scalar field: a milli-density (nominally `0..=1000`) and
/// a material.
#[derive(Clone, Copy, Debug, PartialEq, Eq, Structural)]
pub struct Cell {
    pub value: u32,
    pub cell_type: CellType,
}

impl Default for Cell {
    fn default() -> (r: Cell)
        ensures
            r == (Cell { value: 0, cell_type: CellType::Stone }),
    {
        Cell { value: 0, cell_type: CellType::Stone }
    }
}

/// An RGBA display color; components are percentages (`0..=100`).
#[derive(Clone, Copy, Debug, PartialEq, Eq, Structural)]
pub struct Color {
    pub r: u8,
    pub g: u8,
    pub b: u8,
    pub a: u8,
}

/// Material of a milli-density sampled from the material noise channel:
/// checked in priority order, narrow bands for the rare materials, Stone as
/// the common remainder.
pub open spec fn cell_type_spec(v: int) -> CellType {
    if v < 200 {
        CellType::Dirt
    } else if 300 < v && v < 400 {
        CellType::Granite
    } else if 600 < v && v < 640 {
        CellType::Iron
    } else if 800 < v && v < 820 {
        CellType::Gold
    } else if 900 < v && v < 910 {
        CellType::Ruby
    } else {
        CellType::Stone
    }
}

/// Classify a material-noise milli-value into a material.
pub fn get_cell_type(value: u32) -> (t: CellType)
    ensures
        t == cell_type_spec(value as int),
{
    if value < 200 {
        return CellType::Dirt;
    }
    if value > 300 && value < 400 {
        return CellType::Granite;
    }
    if value > 600 && value < 640 {
        return CellType::Iron;
    }
    if value > 800 && value < 820 {
        return CellType::Gold;
    }
    if value > 900 && value < 910 {
        return CellType::Ruby;
    }
    CellType::Stone
}

/// The fixed display color of a material.
pub open spec fn cell_color_spec(t: CellType) -> Color {
    match t {
        CellType::Stone => Color { r: 40, g: 40, b: 40, a: 100 },
        CellType::Granite => Color { r: 100, g: 100, b: 100, a: 100 },
        CellType::Dirt => Color { r: 30, g: 15, b: 10, a: 100 },
        CellType::Iron => Color { r: 60, g: 30, b: 0, a: 100 },
        CellType::Gold => Color { r: 100, g: 80, b: 10, a: 100 },
        CellType::Ruby => Color { r: 100, g: 0, b: 0, a: 100 },
    }
}

/// Display color of a material.
pub fn get_cell_color(cell_type: CellType) -> (c: Color)
    ensures
        c == cell_color_spec(cell_type),
{
    match cell_type {
        CellType::Stone => Color { r: 40, g: 40, b: 40, a: 100 },
        CellType::Granite => Color { r: 100, g: 100, b: 100, a: 100 },
        CellType::Dirt => Color { r: 30, g: 15, b: 10, a: 100 },
        CellType::Iron => Color { r: 60, g: 30, b: 0, a: 100 },
        CellType::Gold => Color { r: 100, g: 80, b: 10, a: 100 },
        CellType::Ruby => Color { r: 100, g: 0, b: 0, a: 100 },
    }
}

} // verus!
