//! Cursor navigation: one step in each direction and to either end of the
//! line, with the column memory of vertical moves and minimal scrolling.
use vstd::prelude::*;
use crate::editor::{scrolled, selection_adjusted, selection_started, UIState};

verus! {

/// The state after a navigation key: the cursor at `to`, the column memory
/// set to `target`, the scroll offset `scroll`, and the selection started or
/// dropped by the shift key and then following the cursor.
pub open spec fn moved_to(
    old: UIState,
    to: (usize, usize),
    shift: bool,
    target: usize,
    scroll: usize,
) -> UIState {
    UIState {
        cursor_line: to.0,
        cursor_column: to.1,
        vertical_offset_target: target,
        editor_scroll_offset: scroll,
        selection: selection_adjusted(selection_started(old.selection, old.cursor(), shift), to),
        ..old
    }
}

/// The column memory of a vertical run: the current column on its first
/// step, kept afterwards.
pub open spec fn vertical_target(old: UIState) -> usize {
    if old.vertical_offset_target == 0 {
        old.cursor_column
    } else {
        old.vertical_offset_target
    }
}

/// The column reached by a vertical move onto a line of length `len`.
pub open spec fn vertical_column(target: usize, len: nat) -> usize {
    if target < len + 1 {
        target
    } else {
        (len + 1) as usize
    }
}

impl UIState {
    /// One character left, or to the end of the previous line from the
    /// first column; nothing moves at the start of the buffer.
    pub fn cursor_move_left(&mut self, shift: bool)
        requires
            old(self).wf(),
        ensures
            final(self).wf(),
            !old(self).should_show_cursor ==> *final(self) == *old(self),
            old(self).should_show_cursor && old(self).cursor() == (1usize, 1usize) ==> *final(self)
                == (UIState {
                vertical_offset_target: 0,
                selection: selection_adjusted(
                    selection_started(old(self).selection, old(self).cursor(), shift),
                    old(self).cursor(),
                ),
                ..*old(self)
            }),
            old(self).should_show_cursor && old(self).cursor_column == 1 && old(self).cursor_line
                > 1 ==> *final(self) == moved_to(
                *old(self),
                (
                    (old(self).cursor_line - 1) as usize,
                    (old(self).len_of((old(self).cursor_line - 1) as usize) + 1) as usize,
                ),
                shift,
                0,
                scrolled(
                    old(self).editor_scroll_offset,
                    old(self).editor_lines_num,
                    (old(self).cursor_line - 1) as usize,
                ),
            ),
            old(self).should_show_cursor && old(self).cursor_column > 1 ==> *final(self)
                == moved_to(
                *old(self),
                (old(self).cursor_line, (old(self).cursor_column - 1) as usize),
                shift,
                0,
                old(self).editor_scroll_offset,
            ),
    {
        if self.should_show_cursor {
            self.vertical_offset_target = 0;
            self.start_selection(shift);
            if self.cursor_column == 1 {
                if self.cursor_line > 1 {
                    let new_cursor_line = self.cursor_line - 1;
                    self.cursor_line = new_cursor_line;
                    let line_len = self.get_line_len(new_cursor_line - 1);
                    self.cursor_column = line_len + 1;
                    self.handle_cursor_scrolling();
                }
            } else {
                self.cursor_column = self.cursor_column - 1;
            }
            self.adjust_selection();
        }
    }

    /// One character right, or to the start of the next line from the end
    /// of a line; nothing moves at the end of the last line.
    pub fn cursor_move_right(&mut self, shift: bool)
        requires
            old(self).wf(),
        ensures
            final(self).wf(),
            !old(self).should_show_cursor ==> *final(self) == *old(self),
            old(self).should_show_cursor && old(self).cursor_column > old(self).len_of(
                old(self).cursor_line,
            ) && old(self).cursor_line == old(self).lines@.len() ==> *final(self) == (UIState {
                vertical_offset_target: 0,
                selection: selection_adjusted(
                    selection_started(old(self).selection, old(self).cursor(), shift),
                    old(self).cursor(),
                ),
                ..*old(self)
            }),
            old(self).should_show_cursor && old(self).cursor_column > old(self).len_of(
                old(self).cursor_line,
            ) && old(self).cursor_line < old(self).lines@.len() ==> *final(self) == moved_to(
                *old(self),
                ((old(self).cursor_line + 1) as usize, 1),
                shift,
                0,
                scrolled(
                    old(self).editor_scroll_offset,
                    old(self).editor_lines_num,
                    (old(self).cursor_line + 1) as usize,
                ),
            ),
            old(self).should_show_cursor && old(self).cursor_column <= old(self).len_of(
                old(self).cursor_line,
            ) ==> *final(self) == moved_to(
                *old(self),
                (old(self).cursor_line, (old(self).cursor_column + 1) as usize),
                shift,
                0,
                old(self).editor_scroll_offset,
            ),
    {
        if self.should_show_cursor {
            self.vertical_offset_target = 0;
            self.start_selection(shift);
            let line_len = self.get_line_len(self.cursor_line - 1);
            if self.cursor_column > line_len {
                if self.cursor_line < self.lines.len() {
                    self.cursor_column = 1;
                    self.cursor_line = self.cursor_line + 1;
                    self.handle_cursor_scrolling();
                }
            } else {
                self.cursor_column = self.cursor_column + 1;
            }
            self.adjust_selection();
        }
    }

    /// One line up, aiming for the remembered column; on the first line the
    /// cursor goes to column 1 and the column is still remembered.
    pub fn cursor_move_up(&mut self, shift: bool)
        requires
            old(self).wf(),
        ensures
            final(self).wf(),
            !old(self).should_show_cursor ==> *final(self) == *old(self),
            old(self).should_show_cursor && old(self).cursor_line == 1 ==> *final(self)
                == moved_to(
                *old(self),
                (1, 1),
                shift,
                vertical_target(*old(self)),
                old(self).editor_scroll_offset,
            ),
            old(self).should_show_cursor && old(self).cursor_line > 1 ==> *final(self)
                == moved_to(
                *old(self),
                (
                    (old(self).cursor_line - 1) as usize,
                    vertical_column(
                        vertical_target(*old(self)),
                        old(self).len_of((old(self).cursor_line - 1) as usize),
                    ),
                ),
                shift,
                vertical_target(*old(self)),
                scrolled(
                    old(self).editor_scroll_offset,
                    old(self).editor_lines_num,
                    (old(self).cursor_line - 1) as usize,
                ),
            ),
    {
        if self.should_show_cursor {
            self.start_selection(shift);
            if self.cursor_line == 1 {
                if self.vertical_offset_target == 0 {
                    self.vertical_offset_target = self.cursor_column;
                }
                self.cursor_column = 1;
            } else {
                self.cursor_line = self.cursor_line - 1;
                self.adjust_cursor_column_after_vertical_nav();
                self.handle_cursor_scrolling();
            }
            self.adjust_selection();
        }
    }

    /// One line down, aiming for the remembered column; on the last line
    /// the cursor goes to the end of the line and the column is still
    /// remembered.
    pub fn cursor_move_down(&mut self, shift: bool)
        requires
            old(self).wf(),
        ensures
            final(self).wf(),
            !old(self).should_show_cursor ==> *final(self) == *old(self),
            old(self).should_show_cursor && old(self).cursor_line == old(self).lines@.len()
                ==> *final(self) == moved_to(
                *old(self),
                (old(self).cursor_line, (old(self).len_of(old(self).cursor_line) + 1) as usize),
                shift,
                vertical_target(*old(self)),
                old(self).editor_scroll_offset,
            ),
            old(self).should_show_cursor && old(self).cursor_line < old(self).lines@.len()
                ==> *final(self) == moved_to(
                *old(self),
                (
                    (old(self).cursor_line + 1) as usize,
                    vertical_column(
                        vertical_target(*old(self)),
                        old(self).len_of((old(self).cursor_line + 1) as usize),
                    ),
                ),
                shift,
                vertical_target(*old(self)),
                scrolled(
                    old(self).editor_scroll_offset,
                    old(self).editor_lines_num,
                    (old(self).cursor_line + 1) as usize,
                ),
            ),
    {
        if self.should_show_cursor {
            self.start_selection(shift);
            if self.cursor_line == self.lines.len() {
                if self.vertical_offset_target == 0 {
                    self.vertical_offset_target = self.cursor_column;
                }
                let line_len = self.get_line_len(self.cursor_line - 1);
                self.cursor_column = line_len + 1;
            } else {
                self.cursor_line = self.cursor_line + 1;
                self.adjust_cursor_column_after_vertical_nav();
                self.handle_cursor_scrolling();
            }
            self.adjust_selection();
        }
    }

    /// To the first column of the line.
    pub fn cursor_move_line_start(&mut self, shift: bool)
        requires
            old(self).wf(),
        ensures
            final(self).wf(),
            !old(self).should_show_cursor ==> *final(self) == *old(self),
            old(self).should_show_cursor ==> *final(self) == moved_to(
                *old(self),
                (old(self).cursor_line, 1),
                shift,
                0,
                old(self).editor_scroll_offset,
            ),
    {
        if self.should_show_cursor {
            self.start_selection(shift);
            self.vertical_offset_target = 0;
            self.cursor_column = 1;
            self.adjust_selection();
        }
    }

    /// Past the last character of the line.
    pub fn cursor_move_line_end(&mut self, shift: bool)
        requires
            old(self).wf(),
        ensures
            final(self).wf(),
            !old(self).should_show_cursor ==> *final(self) == *old(self),
            old(self).should_show_cursor ==> *final(self) == moved_to(
                *old(self),
                (old(self).cursor_line, (old(self).len_of(old(self).cursor_line) + 1) as usize),
                shift,
                0,
                old(self).editor_scroll_offset,
            ),
    {
        if self.should_show_cursor {
            self.start_selection(shift);
            self.vertical_offset_target = 0;
            let line_len = self.get_line_len(self.cursor_line - 1);
            self.cursor_column = line_len + 1;
            self.adjust_selection();
        }
    }

    /// After a vertical move: remembers the column on the first step of a
    /// run and clamps the cursor column to the new line.
    fn adjust_cursor_column_after_vertical_nav(&mut self)
        requires
            1 <= old(self).cursor_line <= old(self).lines@.len(),
            lines_fit_at(*old(self)),
        ensures
            *final(self) == (UIState {
                vertical_offset_target: vertical_target(*old(self)),
                cursor_column: vertical_column(
                    vertical_target(*old(self)),
                    old(self).len_of(old(self).cursor_line),
                ),
                ..*old(self)
            }),
    {
        if self.vertical_offset_target == 0 {
            self.vertical_offset_target = self.cursor_column;
        }
        let line_len = self.get_line_len(self.cursor_line - 1);
        if self.vertical_offset_target < line_len + 1 {
            self.cursor_column = self.vertical_offset_target;
        } else {
            self.cursor_column = line_len + 1;
        }
    }
}

/// Every line of the state is short enough for its end column to fit.
pub open spec fn lines_fit_at(s: UIState) -> bool {
    crate::buffer::lines_fit(s.text())
}

} // verus!
