//! A selection: the anchor where it started, the active end that follows the
//! cursor, and how each line it covers is classified.
use vstd::prelude::*;
use crate::buffer::first_pos;

verus! {

/// How much of one line a selection covers.
#[derive(Debug, Clone, Copy, PartialEq, Eq, Structural)]
pub enum SelectionType {
    /// The whole line.
    Line,
    /// The line up to (not including) this column.
    To(usize),
    /// The line from this column on.
    From(usize),
    /// The columns from the first up to (not including) the second.
    Range(usize, usize),
}

/// Anchor (`start`) and active end (`end`) of a selection, 1-based.
#[derive(Debug, Clone, Copy)]
pub struct Selection {
    pub start: (usize, usize),
    pub end: (usize, usize),
}

pub open spec fn min_usize(a: usize, b: usize) -> usize {
    if a <= b {
        a
    } else {
        b
    }
}

pub open spec fn max_usize(a: usize, b: usize) -> usize {
    if a <= b {
        b
    } else {
        a
    }
}

/// The classification of `line` for a selection from `s` to `e`: on a single
/// line a range of columns; otherwise the top line from its column on, the
/// bottom line up to its column, and every line between in full.
pub open spec fn classify(s: (usize, usize), e: (usize, usize), line: usize) -> Option<
    SelectionType,
> {
    if s.0 == e.0 {
        if line == s.0 {
            Some(SelectionType::Range(min_usize(s.1, e.1), max_usize(s.1, e.1)))
        } else {
            None
        }
    } else {
        let top = if s.0 < e.0 {
            s
        } else {
            e
        };
        let bottom = if s.0 < e.0 {
            e
        } else {
            s
        };
        if line == top.0 {
            Some(SelectionType::From(top.1))
        } else if line == bottom.0 {
            Some(SelectionType::To(bottom.1))
        } else if top.0 < line < bottom.0 {
            Some(SelectionType::Line)
        } else {
            None
        }
    }
}

/// The column bounds that the renderer is given for a line; a fully selected
/// line has none.
pub open spec fn range_of(t: Option<SelectionType>) -> Option<(usize, usize)> {
    match t {
        Some(SelectionType::To(c)) => Some((0, c)),
        Some(SelectionType::From(c)) => Some((c, 0)),
        Some(SelectionType::Range(a, b)) => Some((a, b)),
        _ => None,
    }
}

/// Whether the character at `column` of a line with classification `t` is
/// selected.
pub open spec fn char_in(t: Option<SelectionType>, column: usize) -> bool {
    match t {
        Some(SelectionType::Line) => true,
        Some(SelectionType::To(c)) => c > column,
        Some(SelectionType::From(c)) => c <= column,
        Some(SelectionType::Range(a, b)) => a <= column && column < b,
        None => false,
    }
}

impl Selection {
    /// An empty selection anchored at the cursor.
    pub fn new(current_cursor_line: usize, current_cursor_col: usize) -> (r: Self)
        ensures
            r.start == (current_cursor_line, current_cursor_col),
            r.end == (current_cursor_line, current_cursor_col),
    {
        Selection {
            start: (current_cursor_line, current_cursor_col),
            end: (current_cursor_line, current_cursor_col),
        }
    }

    /// Moves the active end; the classification follows from the new pair.
    pub fn set_end(&mut self, current_cursor_line: usize, current_cursor_col: usize)
        ensures
            final(self).start == old(self).start,
            final(self).end == (current_cursor_line, current_cursor_col),
    {
        self.end = (current_cursor_line, current_cursor_col);
    }

    /// The classification of a line (1-based).
    pub fn line_type(&self, line: usize) -> (r: Option<SelectionType>)
        ensures
            r == classify(self.start, self.end, line),
    {
        let (start_line, start_column) = self.start;
        let (end_line, end_column) = self.end;
        if start_line == end_line {
            if line == start_line {
                let lo = if start_column <= end_column {
                    start_column
                } else {
                    end_column
                };
                let hi = if start_column <= end_column {
                    end_column
                } else {
                    start_column
                };
                Some(SelectionType::Range(lo, hi))
            } else {
                None
            }
        } else {
            let (top_line, top_column, bottom_line, bottom_column) = if start_line < end_line {
                (start_line, start_column, end_line, end_column)
            } else {
                (end_line, end_column, start_line, start_column)
            };
            if line == top_line {
                Some(SelectionType::From(top_column))
            } else if line == bottom_line {
                Some(SelectionType::To(bottom_column))
            } else if top_line < line && line < bottom_line {
                Some(SelectionType::Line)
            } else {
                None
            }
        }
    }

    /// Whether the character at (`line`, `column`) is selected.
    pub fn is_char_selected(&self, line: usize, column: usize) -> (r: bool)
        ensures
            r == char_in(classify(self.start, self.end, line), column),
    {
        match self.line_type(line) {
            Some(SelectionType::Line) => true,
            Some(SelectionType::To(selected_col)) => selected_col > column,
            Some(SelectionType::From(selected_col)) => selected_col <= column,
            Some(SelectionType::Range(min_col, max_col)) => column >= min_col && column < max_col,
            None => false,
        }
    }

    /// Whether the whole line is selected.
    pub fn is_line_selected(&self, line: usize) -> (r: bool)
        ensures
            r == (classify(self.start, self.end, line) == Some(SelectionType::Line)),
    {
        match self.line_type(line) {
            Some(SelectionType::Line) => true,
            _ => false,
        }
    }

    /// The column bounds of a partly selected line: `(0, c)` up to `c`,
    /// `(c, 0)` from `c` on, `(a, b)` for a range; `None` for a line that is
    /// fully selected or not at all.
    pub fn get_selection_range(&self, line: usize) -> (r: Option<(usize, usize)>)
        ensures
            r == range_of(classify(self.start, self.end, line)),
    {
        match self.line_type(line) {
            Some(SelectionType::To(column)) => Some((0, column)),
            Some(SelectionType::From(column)) => Some((column, 0)),
            Some(SelectionType::Range(min_col, max_col)) => Some((min_col, max_col)),
            _ => None,
        }
    }

    /// The earlier of the two ends in document order.
    pub fn get_first_position(&self) -> (r: (usize, usize))
        ensures
            r == first_pos(self.start, self.end),
    {
        let (start_line, start_column) = self.start;
        let (end_line, end_column) = self.end;
        let direction_forward = end_line > start_line || (end_line == start_line && end_column
            > start_column);
        if direction_forward {
            self.start
        } else {
            self.end
        }
    }
}

} // verus!
