//! Errors of bounds-checked grid access.

use vstd::prelude::*;

verus! {

/// Which index of a `(row, col)` pair lies outside the grid.
#[derive(Debug, Clone, Copy, PartialEq, Eq, Structural)]
pub enum GridError {
    RowIndexOutOfBounds,
    ColIndexOutOfBounds,
    RowAndColIndexOutOfBounds,
}

/// The messages of the grid errors.
#[derive(Debug, Clone, Copy, PartialEq, Eq, Structural)]
pub struct ErrorMessage;

impl ErrorMessage {
    pub const ROW_INDEX_OUT_OF_BOUNDS: &'static str = "Row index out of bounds";
    pub const COL_INDEX_OUT_OF_BOUNDS: &'static str = "Column index out of bounds";
    pub const ROW_AND_COL_INDEX_OUT_OF_BOUNDS: &'static str = "Row and column index out of bounds";
}

/// The error for `(row, col)` in a grid of `rows` by `cols`; `None` when both
/// indices are inside.
pub open spec fn index_error(rows: nat, cols: nat, row: nat, col: nat) -> Option<GridError> {
    if row >= rows && col >= cols {
        Some(GridError::RowAndColIndexOutOfBounds)
    } else if row >= rows {
        Some(GridError::RowIndexOutOfBounds)
    } else if col >= cols {
        Some(GridError::ColIndexOutOfBounds)
    } else {
        None
    }
}

impl GridError {
    /// The message that describes this error.
    pub fn message(&self) -> (r: &'static str)
        ensures
            r@ == match self {
                GridError::RowIndexOutOfBounds => ErrorMessage::ROW_INDEX_OUT_OF_BOUNDS@,
                GridError::ColIndexOutOfBounds => ErrorMessage::COL_INDEX_OUT_OF_BOUNDS@,
                GridError::RowAndColIndexOutOfBounds => ErrorMessage::ROW_AND_COL_INDEX_OUT_OF_BOUNDS@,
            },
    {
        match self {
            GridError::RowIndexOutOfBounds => ErrorMessage::ROW_INDEX_OUT_OF_BOUNDS,
            GridError::ColIndexOutOfBounds => ErrorMessage::COL_INDEX_OUT_OF_BOUNDS,
            GridError::RowAndColIndexOutOfBounds => ErrorMessage::ROW_AND_COL_INDEX_OUT_OF_BOUNDS,
        }
    }
}

} // verus!
