//! Where the cells of a line stand once its text is ordered for reading.
use vstd::prelude::*;
use crate::terminal::snapshot::GridSize;

verus! {

/// One line: where each cell stands, and how deeply the text at each place is nested. Text at an
/// odd level runs from right to left.
#[derive(Clone, Debug, PartialEq, Eq)]
pub struct VisualLine {
    pub logical_to_visual_cell: Vec<u16>,
    pub atom_levels: Vec<u8>,
}

/// The lines of a snapshot.
#[derive(Clone, Debug, PartialEq, Eq)]
pub struct VisualGridMap {
    pub snapshot_generation: u64,
    pub policy_generation: u64,
    pub grid: GridSize,
    pub bidi_enabled: bool,
    pub lines: Vec<VisualLine>,
}

impl VisualLine {
    /// Every cell stands somewhere on the line, and every place has a level.
    pub open spec fn covers(&self, columns: int) -> bool {
        &&& self.logical_to_visual_cell@.len() == columns
        &&& self.atom_levels@.len() == columns
        &&& forall|i: int|
            0 <= i < columns ==> (#[trigger] self.logical_to_visual_cell@[i]) < columns
    }

    fn is_cover(&self, columns: usize) -> (result: bool)
        ensures
            result == self.covers(columns as int),
    {
        if self.logical_to_visual_cell.len() != columns || self.atom_levels.len() != columns {
            return false;
        }
        let mut i: usize = 0;
        while i < columns
            invariant
                i <= columns,
                self.logical_to_visual_cell@.len() == columns,
                forall|k: int| 0 <= k < i ==> (#[trigger] self.logical_to_visual_cell@[k]) < columns,
            decreases columns - i,
        {
            if self.logical_to_visual_cell[i] as usize >= columns {
                return false;
            }
            i += 1;
        }
        true
    }
}

impl VisualGridMap {
    /// Every line of the grid is covered.
    pub open spec fn covers_grid(&self) -> bool {
        &&& self.lines@.len() == self.grid.lines
        &&& forall|i: int|
            0 <= i < self.lines@.len() ==> (#[trigger] self.lines@[i]).covers(
                self.grid.columns as int,
            )
    }

    /// Decides [`VisualGridMap::covers_grid`].
    pub fn is_complete(&self) -> (result: bool)
        ensures
            result == self.covers_grid(),
    {
        if self.lines.len() != self.grid.lines as usize {
            return false;
        }
        let mut i: usize = 0;
        while i < self.lines.len()
            invariant
                i <= self.lines@.len(),
                self.lines@.len() == self.grid.lines,
                forall|k: int|
                    0 <= k < i ==> (#[trigger] self.lines@[k]).covers(self.grid.columns as int),
            decreases self.lines@.len() - i,
        {
            if !self.lines[i].is_cover(self.grid.columns as usize) {
                return false;
            }
            i += 1;
        }
        true
    }
}

} // verus!
