//! Cells: the unit of grid content, an identity plus opaque scratch state.

use vstd::prelude::*;

verus! {

/// Identity of one grid cell; it selects which update rule applies to it.
#[derive(Clone, Copy, Debug, PartialEq, Eq, Structural)]
pub enum CellId {
    Void,
    Rock,
    Sand,
    Water,
}

impl CellId {
    /// Wire code of this identity: `Void = 0`, `Rock = 1`, `Sand = 2`,
    /// `Water = 3`. Snapshots exchanged with other tooling use these codes.
    pub open spec fn code_spec(self) -> u32 {
        match self {
            CellId::Void => 0u32,
            CellId::Rock => 1u32,
            CellId::Sand => 2u32,
            CellId::Water => 3u32,
        }
    }

    /// The wire code of this identity.
    pub fn code(self) -> (c: u32)
        ensures
            c == self.code_spec(),
    {
        match self {
            CellId::Void => 0u32,
            CellId::Rock => 1u32,
            CellId::Sand => 2u32,
            CellId::Water => 3u32,
        }
    }

    /// Decodes a wire code; codes outside the enumeration yield `None`.
    pub fn from_code(c: u32) -> (r: Option<CellId>)
        ensures
            c <= 3 <==> r is Some,
            r matches Some(id) ==> id.code_spec() == c,
    {
        match c {
            0u32 => Some(CellId::Void),
            1u32 => Some(CellId::Rock),
            2u32 => Some(CellId::Sand),
            3u32 => Some(CellId::Water),
            _ => None,
        }
    }
}

impl Default for CellId {
    /// A cell identity defaults to `Void`.
    fn default() -> (r: Self)
        ensures
            r == CellId::Void,
    {
        CellId::Void
    }
}

/// One grid unit: an identity and free-form scratch data for the update rule
/// (velocity, moisture, ...), opaque to the engine.
#[derive(Clone, Copy, Debug, PartialEq, Eq, Structural)]
pub struct Cell {
    pub id: CellId,
    pub state: u32,
}

impl Cell {
    /// The zeroed value every cell of a freshly cleared write target holds.
    pub open spec fn blank_spec() -> Cell {
        Cell { id: CellId::Void, state: 0u32 }
    }

    /// A blank (zeroed) cell.
    pub fn blank() -> (c: Cell)
        ensures
            c == Cell::blank_spec(),
    {
        Cell { id: CellId::Void, state: 0u32 }
    }
}

} // verus!
