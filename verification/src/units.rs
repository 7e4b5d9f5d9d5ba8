//! Display-coordinate units: positions, sizes and per-row selection ranges.
//! A display column counts terminal character cells, where wide glyphs
//! occupy two cells.

use vstd::prelude::*;

verus! {

/// A display-coordinate position: column and row, both zero-based.
#[derive(Clone, Copy, PartialEq, Eq, Structural, Debug, Hash)]
pub struct Position {
    pub col_index: usize,
    pub row_index: usize,
}

impl Position {
    pub fn new(col_index: usize, row_index: usize) -> (r: Position)
        ensures
            r.col_index == col_index,
            r.row_index == row_index,
    {
        Position { col_index, row_index }
    }

    /// One row down, clamped so the result stays below `row_bound` when
    /// `row_bound` is positive.
    pub fn add_row_with_bounds(self, rows: usize, row_bound: usize) -> (r: Position)
        ensures
            r.col_index == self.col_index,
            r.row_index == if self.row_index + rows < row_bound {
                self.row_index + rows
            } else if row_bound > 0 {
                (row_bound - 1) as int
            } else {
                0int
            },
    {
        let row: usize = if rows <= usize::MAX - self.row_index && self.row_index + rows < row_bound {
            self.row_index + rows
        } else if row_bound > 0 {
            row_bound - 1
        } else {
            0
        };
        Position { col_index: self.col_index, row_index: row }
    }
}

impl Default for Position {
    fn default() -> (r: Position)
        ensures
            r.col_index == 0,
            r.row_index == 0,
    {
        Position { col_index: 0, row_index: 0 }
    }
}

/// A viewport size in whole character cells.
#[derive(Clone, Copy, PartialEq, Eq, Structural, Debug)]
pub struct Size {
    pub col_count: usize,
    pub row_count: usize,
}

impl Size {
    pub fn new(col_count: usize, row_count: usize) -> (r: Size)
        ensures
            r.col_count == col_count,
            r.row_count == row_count,
    {
        Size { col_count, row_count }
    }
}

/// A half-open range `[start, end)` of display columns on a single row.
#[derive(Clone, Copy, PartialEq, Eq, Structural, Debug)]
pub struct SelectionRange {
    pub start_display_col_index: usize,
    pub end_display_col_index: usize,
}

/// Where a row's selection range sits relative to the horizontal scroll
/// offset: `Underflow` means the range starts at or after the visible
/// window and can be used as-is; `Overflow` means it starts before the
/// window and must be re-clipped to begin at the scroll column.
#[derive(Clone, Copy, PartialEq, Eq, Structural, Debug)]
pub enum ScrollOffsetColLocationInRange {
    Underflow,
    Overflow,
}

impl SelectionRange {
    pub fn new(start_display_col_index: usize, end_display_col_index: usize) -> (r: SelectionRange)
        ensures
            r.start_display_col_index == start_display_col_index,
            r.end_display_col_index == end_display_col_index,
    {
        SelectionRange { start_display_col_index, end_display_col_index }
    }

    /// A range is well formed when it is genuinely half-open.
    pub open spec fn wf(self) -> bool {
        self.start_display_col_index <= self.end_display_col_index
    }

    /// Classifies this range against the horizontal scroll offset.
    pub fn locate_scroll_offset_col(&self, scroll_offset: Position) -> (r: ScrollOffsetColLocationInRange)
        ensures
            r == (if self.start_display_col_index < scroll_offset.col_index {
                ScrollOffsetColLocationInRange::Overflow
            } else {
                ScrollOffsetColLocationInRange::Underflow
            }),
    {
        if self.start_display_col_index < scroll_offset.col_index {
            ScrollOffsetColLocationInRange::Overflow
        } else {
            ScrollOffsetColLocationInRange::Underflow
        }
    }

    /// The same range re-clipped so that it starts no earlier than
    /// `scroll_col`.
    pub fn clipped_to_scroll_col(&self, scroll_col: usize) -> (r: SelectionRange)
        ensures
            r.start_display_col_index == if self.start_display_col_index >= scroll_col {
                self.start_display_col_index as int
            } else {
                scroll_col as int
            },
            r.end_display_col_index == self.end_display_col_index,
    {
        let start: usize = if self.start_display_col_index >= scroll_col {
            self.start_display_col_index
        } else {
            scroll_col
        };
        SelectionRange { start_display_col_index: start, end_display_col_index: self.end_display_col_index }
    }
}

} // verus!
