//! Spreadsheet grid navigation and edit state.
use vstd::prelude::*;

use crate::office::events::CellRef;

verus! {

/// Grid state for spreadsheet display.
pub struct GridState {
    /// Selected column.
    pub cursor_col: u32,
    /// Selected row.
    pub cursor_row: u32,
    /// First visible column.
    pub scroll_col: u32,
    /// First visible row.
    pub scroll_row: u32,
    /// Whether the current cell is being edited.
    pub editing: bool,
    /// The edit buffer.
    pub edit_buffer: String,
    /// Column widths.
    pub col_widths: Vec<u16>,
    /// Total columns.
    pub total_cols: u32,
    /// Total rows.
    pub total_rows: u32,
}

impl GridState {
    /// Create a grid with the cursor at the origin and default column widths.
    pub fn new(cols: u32, rows: u32) -> (r: GridState)
        ensures
            r.cursor_col == 0 && r.cursor_row == 0,
            r.scroll_col == 0 && r.scroll_row == 0,
            !r.editing,
            r.edit_buffer@ == Seq::<char>::empty(),
            r.col_widths@.len() == cols,
            forall|i: int| 0 <= i < r.col_widths@.len() ==> r.col_widths@[i] == 10u16,
            r.total_cols == cols,
            r.total_rows == rows,
    {
        let mut col_widths: Vec<u16> = Vec::new();
        let mut i: u32 = 0;
        while i < cols
            invariant
                i <= cols,
                col_widths@.len() == i,
                forall|j: int| 0 <= j < i ==> col_widths@[j] == 10u16,
            decreases cols - i,
    {
            col_widths.push(10);
            i += 1;
        }
        GridState {
            cursor_col: 0,
            cursor_row: 0,
            scroll_col: 0,
            scroll_row: 0,
            editing: false,
            edit_buffer: String::new(),
            col_widths,
            total_cols: cols,
            total_rows: rows,
        }
    }

    /// The cell the cursor is on.
    pub fn current_cell(&self) -> (r: CellRef)
        ensures
            r.col == self.cursor_col,
            r.row == self.cursor_row,
    {
        CellRef::new(self.cursor_col, self.cursor_row)
    }

    /// Move the selection up one row, stopping at the top.
    pub fn move_up(&mut self)
        ensures
            final(self).cursor_row == (if old(self).cursor_row > 0 {
                old(self).cursor_row - 1
            } else {
                0
            }),
            *final(self) == (GridState { cursor_row: final(self).cursor_row, ..*old(self) }),
    {
        if self.cursor_row > 0 {
            self.cursor_row = self.cursor_row - 1;
        }
    }

    /// Move the selection down one row, stopping at the last row.
    pub fn move_down(&mut self)
        ensures
            final(self).cursor_row == (if old(self).total_rows > 0 && old(self).cursor_row < old(
                self,
            ).total_rows - 1 {
                old(self).cursor_row + 1
            } else {
                old(self).cursor_row as int
            }),
            *final(self) == (GridState { cursor_row: final(self).cursor_row, ..*old(self) }),
    {
        if self.total_rows > 0 && self.cursor_row < self.total_rows - 1 {
            self.cursor_row = self.cursor_row + 1;
        }
    }

    /// Move the selection left one column, stopping at the first.
    pub fn move_left(&mut self)
        ensures
            final(self).cursor_col == (if old(self).cursor_col > 0 {
                old(self).cursor_col - 1
            } else {
                0
            }),
            *final(self) == (GridState { cursor_col: final(self).cursor_col, ..*old(self) }),
    {
        if self.cursor_col > 0 {
            self.cursor_col = self.cursor_col - 1;
        }
    }

    /// Move the selection right one column, stopping at the last.
    pub fn move_right(&mut self)
        ensures
            final(self).cursor_col == (if old(self).total_cols > 0 && old(self).cursor_col < old(
                self,
            ).total_cols - 1 {
                old(self).cursor_col + 1
            } else {
                old(self).cursor_col as int
            }),
            *final(self) == (GridState { cursor_col: final(self).cursor_col, ..*old(self) }),
    {
        if self.total_cols > 0 && self.cursor_col < self.total_cols - 1 {
            self.cursor_col = self.cursor_col + 1;
        }
    }

    /// Start editing the current cell with the given initial text.
    pub fn start_edit(&mut self, initial: &str)
        ensures
            final(self).editing,
            final(self).edit_buffer@ == initial@,
            *final(self) == (GridState {
                editing: true,
                edit_buffer: final(self).edit_buffer,
                ..*old(self)
            }),
    {
        self.editing = true;
        self.edit_buffer = initial.to_owned();
    }

    /// Cancel editing and discard the buffer.
    pub fn cancel_edit(&mut self)
        ensures
            !final(self).editing,
            final(self).edit_buffer@ == Seq::<char>::empty(),
            *final(self) == (GridState {
                editing: false,
                edit_buffer: final(self).edit_buffer,
                ..*old(self)
            }),
    {
        self.editing = false;
        self.edit_buffer = String::new();
    }

    /// Finish editing and hand the buffer out.
    pub fn finish_edit(&mut self) -> (r: String)
        ensures
            r@ == old(self).edit_buffer@,
            !final(self).editing,
            final(self).edit_buffer@ == Seq::<char>::empty(),
            *final(self) == (GridState {
                editing: false,
                edit_buffer: final(self).edit_buffer,
                ..*old(self)
            }),
    {
        self.editing = false;
        let out = self.edit_buffer.clone();
        self.edit_buffer = String::new();
        out
    }

    /// Scroll so that the cursor is within the visible window.
    pub fn ensure_visible(&mut self, visible_cols: u32, visible_rows: u32)
        ensures
            final(self).scroll_col == spec_scrolled(
                old(self).cursor_col,
                old(self).scroll_col,
                visible_cols,
            ),
            final(self).scroll_row == spec_scrolled(
                old(self).cursor_row,
                old(self).scroll_row,
                visible_rows,
            ),
            *final(self) == (GridState {
                scroll_col: final(self).scroll_col,
                scroll_row: final(self).scroll_row,
                ..*old(self)
            }),
    {
        if self.cursor_col < self.scroll_col {
            self.scroll_col = self.cursor_col;
        } else if visible_cols == 0 {
            self.scroll_col = self.cursor_col;
        } else if self.cursor_col - self.scroll_col >= visible_cols {
            self.scroll_col = self.cursor_col - (visible_cols - 1);
        }
        if self.cursor_row < self.scroll_row {
            self.scroll_row = self.cursor_row;
        } else if visible_rows == 0 {
            self.scroll_row = self.cursor_row;
        } else if self.cursor_row - self.scroll_row >= visible_rows {
            self.scroll_row = self.cursor_row - (visible_rows - 1);
        }
    }
}

/// The scroll offset that keeps `cursor` within a `visible`-wide window
/// starting at `scroll`: unchanged when already visible, snapped to the
/// cursor when it lies before the window or the window is empty, and moved
/// just far enough when the cursor lies past the window.
pub open spec fn spec_scrolled(cursor: u32, scroll: u32, visible: u32) -> u32 {
    if cursor < scroll {
        cursor
    } else if visible == 0 {
        cursor
    } else if cursor - scroll >= visible {
        (cursor - (visible - 1)) as u32
    } else {
        scroll
    }
}

} // verus!
