//! Editing operations: typing, removing characters, line breaks and
//! indentation, each reporting itself to the undo engine where it is
//! undoable.
use vstd::prelude::*;
use crate::buffer::{first_pos, join_lines, lines_after_delete, lines_fit, lines_view,
    range_pieces, spaces, valid_pos};
use crate::editor::{same_view, scrolled, UIState};
use crate::ranges::{deletable, put_line, take_line};
use crate::text::{leading_ws, push_all, space_vec};
use crate::undo_redo::{recorded, sel_view, ActionView, RemoveBufferType, SelView, UndoAction,
    UndoRedo};

verus! {

/// Whether an edit starts by removing a selection.
pub open spec fn removes_selection(ed: UIState) -> bool {
    ed.selection is Some && deletable(ed.text(), ed.selection->0.start, ed.selection->0.end)
}

/// The text once a selection that an edit starts with is removed.
pub open spec fn text_without_selection(ed: UIState) -> Seq<Seq<char>> {
    if removes_selection(ed) {
        lines_after_delete(ed.text(), ed.selection->0.start, ed.selection->0.end)
    } else {
        ed.text()
    }
}

/// The cursor once a selection that an edit starts with is removed: on the
/// selection's earlier end.
pub open spec fn cursor_without_selection(ed: UIState) -> (usize, usize) {
    if removes_selection(ed) {
        first_pos(ed.selection->0.start, ed.selection->0.end)
    } else {
        ed.cursor()
    }
}

/// What the undo engine is told of a selection that an edit removed.
pub open spec fn removed_selection(ed: UIState) -> Option<SelView> {
    if removes_selection(ed) {
        let s = ed.selection->0;
        Some(
            SelView {
                text: join_lines(range_pieces(ed.text(), s.start, s.end)),
                start: s.start,
                end: s.end,
            },
        )
    } else {
        None
    }
}

/// Line `i` (0-based) joined with the line below it.
pub open spec fn merged_with_next(t: Seq<Seq<char>>, i: int) -> Seq<Seq<char>> {
    t.subrange(0, i).push(t[i] + t[i + 1]) + t.subrange(i + 2, t.len() as int)
}

/// Line `l` (1-based) split at column `c`, the new line below indented by
/// the whitespace width of the line that is split.
pub open spec fn split_with_indent(t: Seq<Seq<char>>, l: usize, c: usize) -> Seq<Seq<char>> {
    let line = t[l - 1];
    t.subrange(0, l - 1).push(line.subrange(0, c - 1)).push(
        spaces(leading_ws(line)) + line.subrange(c - 1, line.len() as int),
    ) + t.subrange(l as int, t.len() as int)
}

/// Indentation settings.
pub struct Config {
    pub tabs_to_spaces: bool,
    pub whitespaces_amount: usize,
}

impl Config {
    /// Four spaces per indentation level.
    pub fn new() -> (r: Self)
        ensures
            r.tabs_to_spaces,
            r.whitespaces_amount == 4,
    {
        Config { tabs_to_spaces: true, whitespaces_amount: 4 }
    }
}

impl UIState {
    /// Removes the selection an edit starts with.
    fn clear_selection_for_edit(&mut self) -> (r: Option<crate::undo_redo::UndoSelection>)
        requires
            old(self).wf(),
        ensures
            final(self).wf(),
            final(self).text() == text_without_selection(*old(self)),
            final(self).cursor() == cursor_without_selection(*old(self)),
            final(self).selection is None,
            sel_view(r) == removed_selection(*old(self)),
            *final(self) == (UIState {
                lines: final(self).lines,
                cursor_line: final(self).cursor_line,
                cursor_column: final(self).cursor_column,
                selection: None,
                ..*old(self)
            }),
    {
        self.delete_selection()
    }

    /// Types `character` at the cursor, replacing any selection, and moves
    /// the cursor past it. A line-break character changes nothing (a line
    /// holds none; Enter splits lines). Where the line would be too long for
    /// its end column to fit, only the selection is removed.
    pub fn insert_character(&mut self, character: char, undo_redo: &mut UndoRedo)
        requires
            old(self).wf(),
        ensures
            final(self).wf(),
            character != '\n' && character != '\r' ==> final(self).vertical_offset_target == 0
                && final(self).selection is None,
            final(self).editor_scroll_offset == old(self).editor_scroll_offset,
            same_view(*old(self), *final(self)),
            character == '\n' || character == '\r' ==> *final(self) == *old(self)
                && final(undo_redo).view() == old(undo_redo).view(),
            character != '\n' && character != '\r' ==> ({
                let t0 = text_without_selection(*old(self));
                let (l, c) = cursor_without_selection(*old(self));
                &&& t0[l - 1].len() + 1 < usize::MAX ==> {
                    &&& final(self).text() == t0.update(l - 1, t0[l - 1].insert(c - 1, character))
                    &&& final(self).cursor() == (l, (c + 1) as usize)
                    &&& exists|now: u64| final(undo_redo).view() == #[trigger] recorded(
                        old(undo_redo).view(),
                        ActionView::AddCharacter(
                            character,
                            (l, c),
                            (l, (c + 1) as usize),
                            removed_selection(*old(self)),
                        ),
                        now,
                    )
                }
                &&& t0[l - 1].len() + 1 >= usize::MAX ==> final(self).text() == t0
                    && final(self).cursor() == (l, c) && final(undo_redo).view() == old(undo_redo).view()
            }),
    {
        if character == '\n' || character == '\r' {
            return;
        }
        self.vertical_offset_target = 0;
        let removed = self.clear_selection_for_edit();
        let idx = self.cursor_line - 1;
        let ghost t0 = self.text();
        proof {
            assert(t0[idx as int] == self.lines@[idx as int]@);
        }
        if self.lines[idx].len() >= usize::MAX - 1 {
            return;
        }
        let mut line = take_line(&mut self.lines, idx);
        let start = (self.cursor_line, self.cursor_column);
        line.insert(self.cursor_column - 1, character);
        put_line(&mut self.lines, idx, line);
        self.cursor_column = self.cursor_column + 1;
        let end = (self.cursor_line, self.cursor_column);
        proof {
            let nt = self.text();
            assert forall|i: int| 0 <= i < nt.len() implies #[trigger] nt[i].len() < usize::MAX by {
                if i != idx {
                    assert(nt[i] == t0[i]);
                }
            }
        }
        undo_redo.add_undo_action(UndoAction::AddCharacter(character, start, end, removed));
    }

    /// Backspace: removes the selection if there is one (reported as an
    /// empty paste that replaced it); otherwise removes the character left
    /// of the cursor, or at the first column joins the line to the one
    /// above. Nothing happens at the start of the buffer.
    pub fn remove_previous_character(&mut self, undo_redo: &mut UndoRedo)
        requires
            old(self).wf(),
        ensures
            final(self).wf(),
            final(self).vertical_offset_target == 0,
            final(self).selection is None,
            same_view(*old(self), *final(self)),
            !(old(self).selection is None && old(self).cursor_column == 1 && old(self).cursor_line
                > 1) ==> final(self).editor_scroll_offset == old(self).editor_scroll_offset,
            old(self).selection is Some ==> final(self).text() == text_without_selection(*old(self))
                && final(self).cursor() == cursor_without_selection(*old(self)),
            old(self).selection is Some ==> exists|now: u64| final(undo_redo).view()
                == #[trigger] recorded(
                old(undo_redo).view(),
                ActionView::Paste(
                    Seq::<char>::empty(),
                    cursor_without_selection(*old(self)),
                    cursor_without_selection(*old(self)),
                    removed_selection(*old(self)),
                ),
                now,
            ),
            old(self).selection is None && old(self).cursor() == (1usize, 1usize) ==> final(self).text() == old(self).text() && final(self).cursor() == old(self).cursor() && final(undo_redo).view() == old(undo_redo).view(),
            ({
                let t = old(self).text();
                let (l, c) = old(self).cursor();
                &&& old(self).selection is None && c > 1 ==> {
                    &&& final(self).text() == t.update(l - 1, t[l - 1].remove(c - 2))
                    &&& final(self).cursor() == (l, (c - 1) as usize)
                    &&& exists|now: u64| final(undo_redo).view() == #[trigger] recorded(
                        old(undo_redo).view(),
                        ActionView::RemoveCharacter(
                            t[l - 1][c - 2],
                            (l, c),
                            (l, (c - 1) as usize),
                            RemoveBufferType::Backspace,
                        ),
                        now,
                    )
                }
                &&& old(self).selection is None && c == 1 && l > 1 && t[l - 2].len() + t[l
                    - 1].len() < usize::MAX ==> {
                    &&& final(self).text() == merged_with_next(t, l - 2)
                    &&& final(self).cursor() == ((l - 1) as usize, (t[l - 2].len() + 1) as usize)
                    &&& final(self).editor_scroll_offset == scrolled(
                        old(self).editor_scroll_offset,
                        old(self).editor_lines_num,
                        (l - 1) as usize,
                    )
                    &&& exists|now: u64| final(undo_redo).view() == #[trigger] recorded(
                        old(undo_redo).view(),
                        ActionView::RemoveCharacter(
                            '\n',
                            (l, c),
                            ((l - 1) as usize, (t[l - 2].len() + 1) as usize),
                            RemoveBufferType::Backspace,
                        ),
                        now,
                    )
                }
            }),
    {
        self.vertical_offset_target = 0;
        if self.selection.is_some() {
            let removed = self.clear_selection_for_edit();
            let at = (self.cursor_line, self.cursor_column);
            undo_redo.add_undo_action(UndoAction::Paste(String::new(), at, at, removed));
            return;
        }
        let start = (self.cursor_line, self.cursor_column);
        if self.cursor_column == 1 && self.cursor_line == 1 {
            return;
        }
        let ghost t = self.text();
        let idx = self.cursor_line - 1;
        proof {
            assert(t[idx as int] == self.lines@[idx as int]@);
        }
        if self.cursor_column == 1 {
            proof {
                assert(t[idx - 1] == self.lines@[idx - 1]@);
            }
            let previous_line_len = self.lines[idx - 1].len();
            if previous_line_len >= usize::MAX - self.lines[idx].len() {
                return;
            }
            self.merge_with_next(idx - 1);
            self.cursor_line = self.cursor_line - 1;
            self.cursor_column = previous_line_len + 1;
            self.handle_cursor_scrolling();
            undo_redo.add_undo_action(
                UndoAction::RemoveCharacter(
                    '\n',
                    start,
                    (self.cursor_line, self.cursor_column),
                    RemoveBufferType::Backspace,
                ),
            );
        } else {
            let mut line = take_line(&mut self.lines, idx);
            let deleted_character = line.remove(self.cursor_column - 2);
            put_line(&mut self.lines, idx, line);
            self.cursor_column = self.cursor_column - 1;
            proof {
                let nt = self.text();
                assert forall|i: int| 0 <= i < nt.len() implies #[trigger] nt[i].len() < usize::MAX by {
                    if i != idx {
                        assert(nt[i] == t[i]);
                    }
                }
            }
            undo_redo.add_undo_action(
                UndoAction::RemoveCharacter(
                    deleted_character,
                    start,
                    (self.cursor_line, self.cursor_column),
                    RemoveBufferType::Backspace,
                ),
            );
        }
    }

    /// Delete: removes the selection if there is one (reported as an empty
    /// paste that replaced it); otherwise removes the character at the
    /// cursor, or at the end of a line pulls the next line up. Nothing
    /// happens at the end of the last line. The cursor does not move.
    pub fn remove_next_character(&mut self, undo_redo: &mut UndoRedo)
        requires
            old(self).wf(),
        ensures
            final(self).wf(),
            final(self).vertical_offset_target == 0,
            final(self).selection is None,
            same_view(*old(self), *final(self)),
            final(self).editor_scroll_offset == old(self).editor_scroll_offset,
            old(self).selection is Some ==> final(self).text() == text_without_selection(*old(self))
                && final(self).cursor() == cursor_without_selection(*old(self)),
            old(self).selection is Some ==> exists|now: u64| final(undo_redo).view()
                == #[trigger] recorded(
                old(undo_redo).view(),
                ActionView::Paste(
                    Seq::<char>::empty(),
                    cursor_without_selection(*old(self)),
                    cursor_without_selection(*old(self)),
                    removed_selection(*old(self)),
                ),
                now,
            ),
            old(self).selection is None ==> final(self).cursor() == old(self).cursor(),
            old(self).selection is None && old(self).cursor_line == old(self).lines@.len()
                && old(self).cursor_column == old(self).len_of(old(self).cursor_line) + 1 ==> final(self).text() == old(self).text() && final(undo_redo).view() == old(undo_redo).view(),
            ({
                let t = old(self).text();
                let (l, c) = old(self).cursor();
                &&& old(self).selection is None && c <= t[l - 1].len() ==> {
                    &&& final(self).text() == t.update(l - 1, t[l - 1].remove(c - 1))
                    &&& exists|now: u64| final(undo_redo).view() == #[trigger] recorded(
                        old(undo_redo).view(),
                        ActionView::RemoveCharacter(
                            t[l - 1][c - 1],
                            (l, c),
                            (l, c),
                            RemoveBufferType::Delete,
                        ),
                        now,
                    )
                }
                &&& old(self).selection is None && c == t[l - 1].len() + 1 && l < t.len() && t[l
                    - 1].len() + t[l as int].len() < usize::MAX ==> {
                    &&& final(self).text() == merged_with_next(t, l - 1)
                    &&& exists|now: u64| final(undo_redo).view() == #[trigger] recorded(
                        old(undo_redo).view(),
                        ActionView::RemoveCharacter('\n', (l, c), (l, c), RemoveBufferType::Delete),
                        now,
                    )
                }
            }),
    {
        self.vertical_offset_target = 0;
        if self.selection.is_some() {
            let removed = self.clear_selection_for_edit();
            let at = (self.cursor_line, self.cursor_column);
            undo_redo.add_undo_action(UndoAction::Paste(String::new(), at, at, removed));
            return;
        }
        let ghost t = self.text();
        let idx = self.cursor_line - 1;
        let at = (self.cursor_line, self.cursor_column);
        proof {
            assert(t[idx as int] == self.lines@[idx as int]@);
        }
        let line_len = self.lines[idx].len();
        if self.cursor_column - 1 == line_len {
            if self.cursor_line == self.lines.len() {
                return;
            }
            proof {
                assert(t[idx + 1] == self.lines@[idx + 1]@);
            }
            if line_len >= usize::MAX - self.lines[idx + 1].len() {
                return;
            }
            self.merge_with_next(idx);
            undo_redo.add_undo_action(
                UndoAction::RemoveCharacter('\n', at, at, RemoveBufferType::Delete),
            );
        } else {
            let mut line = take_line(&mut self.lines, idx);
            let deleted_character = line.remove(self.cursor_column - 1);
            put_line(&mut self.lines, idx, line);
            proof {
                let nt = self.text();
                assert forall|i: int| 0 <= i < nt.len() implies #[trigger] nt[i].len() < usize::MAX by {
                    if i != idx {
                        assert(nt[i] == t[i]);
                    }
                }
            }
            undo_redo.add_undo_action(
                UndoAction::RemoveCharacter(deleted_character, at, at, RemoveBufferType::Delete),
            );
        }
    }

    /// Joins line `i + 1` (0-based) onto line `i`; the cursor and selection
    /// are left for the caller to set.
    fn merge_with_next(&mut self, i: usize)
        requires
            i + 1 < old(self).lines@.len(),
            old(self).text()[i as int].len() + old(self).text()[i + 1].len() < usize::MAX,
            lines_fit(old(self).text()),
        ensures
            final(self).text() == merged_with_next(old(self).text(), i as int),
            lines_fit(final(self).text()),
            final(self).lines@.len() == old(self).lines@.len() - 1,
            *final(self) == (UIState { lines: final(self).lines, ..*old(self) }),
    {
        let ghost t = self.text();
        let n = self.lines.len();
        assert(i + 1 < n);
        let next = self.lines.remove(i + 1);
        assert(lines_view(self.lines@) =~= t.remove(i + 1));
        let mut line = take_line(&mut self.lines, i);
        push_all(&mut line, next.as_slice());
        put_line(&mut self.lines, i, line);
        proof {
            let nt = self.text();
            assert(nt =~= merged_with_next(t, i as int));
            assert forall|k: int| 0 <= k < nt.len() implies #[trigger] nt[k].len() < usize::MAX by {
                if k < i {
                    assert(nt[k] == t[k]);
                } else if k > i {
                    assert(nt[k] == t[k + 1]);
                }
            }
        }
    }

    /// Enter: removes any selection, then splits the line at the cursor; the
    /// new line below starts with as many spaces as the line had leading
    /// whitespace, and the cursor goes after them.
    pub fn add_new_line(&mut self)
        requires
            old(self).wf(),
        ensures
            final(self).wf(),
            final(self).vertical_offset_target == 0,
            final(self).selection is None,
            same_view(*old(self), *final(self)),
            ({
                let t0 = text_without_selection(*old(self));
                let (l, c) = cursor_without_selection(*old(self));
                &&& leading_ws(t0[l - 1]) + (t0[l - 1].len() - (c - 1)) < usize::MAX ==> {
                    &&& final(self).text() == split_with_indent(t0, l, c)
                    &&& final(self).cursor() == ((l + 1) as usize, (leading_ws(t0[l - 1]) + 1) as usize)
                    &&& final(self).editor_scroll_offset == scrolled(
                        old(self).editor_scroll_offset,
                        old(self).editor_lines_num,
                        (l + 1) as usize,
                    )
                }
                &&& leading_ws(t0[l - 1]) + (t0[l - 1].len() - (c - 1)) >= usize::MAX ==> final(
                    self).text() == t0 && final(self).cursor() == (l, c)
            }),
    {
        self.vertical_offset_target = 0;
        self.clear_selection_for_edit();
        let ghost t0 = self.text();
        let idx = self.cursor_line - 1;
        proof {
            assert(t0[idx as int] == self.lines@[idx as int]@);
            crate::text::lemma_leading_ws_bound(t0[idx as int]);
        }
        let whitespaces = UIState::calculate_whitespace_num(self.lines[idx].as_slice());
        if whitespaces >= usize::MAX - (self.lines[idx].len() - (self.cursor_column - 1)) {
            return;
        }
        let mut line = take_line(&mut self.lines, idx);
        let tail = line.split_off(self.cursor_column - 1);
        let ghost head_v = line@;
        put_line(&mut self.lines, idx, line);
        let mut new_line = space_vec(whitespaces);
        push_all(&mut new_line, tail.as_slice());
        let ghost before = self.lines@;
        let ghost nl = new_line@;
        assert(lines_view(before) =~= t0.update(idx as int, head_v));
        self.lines.insert(idx + 1, new_line);
        proof {
            let nt = self.text();
            assert(nt =~= lines_view(before).insert(idx + 1, nl));
            assert(nt =~= split_with_indent(t0, self.cursor_line, self.cursor_column));
            assert forall|k: int| 0 <= k < nt.len() implies #[trigger] nt[k].len() < usize::MAX by {
                if k < idx {
                    assert(nt[k] == t0[k]);
                } else if k > idx + 1 {
                    assert(nt[k] == t0[k - 1]);
                }
            }
        }
        let n = self.lines.len();
        assert(idx + 2 <= n);
        self.cursor_line = idx + 2;
        self.cursor_column = whitespaces + 1;
        self.handle_cursor_scrolling();
    }
}

} // verus!
