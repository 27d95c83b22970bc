//! Removing the text between two positions, and the selection built on it.
use vstd::prelude::*;
use crate::buffer::{first_pos, join_lines, last_pos, lines_after_delete, lines_fit, lines_view,
    range_pieces, valid_pos};
use crate::editor::UIState;
use crate::selection::Selection;
use crate::text::{push_all, string_of};
use crate::undo_redo::UndoSelection;

verus! {

/// Whether the text between two positions can be removed: both lie inside
/// the text, and the line that joins their outer parts stays short enough
/// for its end column to fit.
pub open spec fn deletable(t: Seq<Seq<char>>, s: (usize, usize), e: (usize, usize)) -> bool {
    let a = first_pos(s, e);
    let b = last_pos(s, e);
    &&& valid_pos(t, s)
    &&& valid_pos(t, e)
    &&& (a.1 - 1) + (t[b.0 - 1].len() - (b.1 - 1)) < usize::MAX
}

/// Takes line `i` out of `lines`, leaving an empty line in its place.
pub fn take_line(lines: &mut Vec<Vec<char>>, i: usize) -> (r: Vec<char>)
    requires
        i < old(lines)@.len(),
    ensures
        r@ == old(lines)@[i as int]@,
        final(lines)@.len() == old(lines)@.len(),
        lines_view(final(lines)@) == lines_view(old(lines)@).update(i as int, seq![]),
{
    let mut r: Vec<char> = Vec::new();
    lines.set_and_swap(i, &mut r);
    assert(lines_view(lines@) =~= lines_view(old(lines)@).update(i as int, seq![]));
    r
}

/// Puts `line` at index `i` of `lines`.
pub fn put_line(lines: &mut Vec<Vec<char>>, i: usize, line: Vec<char>)
    requires
        i < old(lines)@.len(),
    ensures
        final(lines)@.len() == old(lines)@.len(),
        lines_view(final(lines)@) == lines_view(old(lines)@).update(i as int, line@),
{
    lines.set(i, line);
    assert(lines_view(lines@) =~= lines_view(old(lines)@).update(i as int, line@));
}

/// `first`, the lines of `middle` and `last`, joined with line breaks.
pub fn join_text(first: &Vec<char>, middle: &Vec<Vec<char>>, last: &Vec<char>) -> (r: Vec<char>)
    ensures
        r@ == join_lines(seq![first@] + lines_view(middle@) + seq![last@]),
{
    let mut r: Vec<char> = Vec::new();
    push_all(&mut r, first.as_slice());
    let mut i: usize = 0;
    assert(seq![first@] + lines_view(middle@).subrange(0, 0) =~= seq![first@]);
    while i < middle.len()
        invariant
            i <= middle@.len(),
            r@ == join_lines(seq![first@] + lines_view(middle@).subrange(0, i as int)),
        decreases middle.len() - i,
    {
        let ghost p = seq![first@] + lines_view(middle@).subrange(0, i as int);
        let ghost q = seq![first@] + lines_view(middle@).subrange(0, i + 1);
        assert(q.drop_last() =~= p);
        r.push('\n');
        push_all(&mut r, middle[i].as_slice());
        i = i + 1;
        assert(r@ =~= join_lines(p) + seq!['\n'] + q.last());
    }
    let ghost p = seq![first@] + lines_view(middle@);
    assert(lines_view(middle@).subrange(0, i as int) =~= lines_view(middle@));
    assert((p + seq![last@]).drop_last() =~= p);
    r.push('\n');
    push_all(&mut r, last.as_slice());
    assert(r@ =~= join_lines(p) + seq!['\n'] + last@);
    r
}

impl UIState {
    /// Whether `p` lies inside the text.
    pub fn position_valid(&self, p: (usize, usize)) -> (r: bool)
        ensures
            r == valid_pos(self.text(), p),
    {
        if 1 <= p.0 && p.0 <= self.lines.len() {
            proof {
                assert(self.text()[p.0 - 1] == self.lines@[p.0 - 1]@);
            }
            1 <= p.1 && p.1 - 1 <= self.lines[p.0 - 1].len()
        } else {
            false
        }
    }

    /// Removes the text between `start` and `end`, given in either order, and
    /// returns it with lines joined by `'\n'`, top to bottom. The cursor and
    /// the selection are left as they are: placing them is the caller's
    /// part (the earlier end stays inside the text). Where the range cannot
    /// be removed (see `deletable`) nothing changes and `None` comes back.
    pub fn delete_range(&mut self, start: (usize, usize), end: (usize, usize)) -> (r: Option<
        UndoSelection,
    >)
        requires
            old(self).wf(),
        ensures
            final(self).lines@.len() >= 1,
            lines_fit(final(self).text()),
            !deletable(old(self).text(), start, end) ==> r is None && *final(self) == *old(self),
            deletable(old(self).text(), start, end) ==> {
                &&& r is Some
                &&& r->0.text@ == join_lines(range_pieces(old(self).text(), start, end))
                &&& r->0.start == start
                &&& r->0.end == end
                &&& final(self).text() == lines_after_delete(old(self).text(), start, end)
                &&& valid_pos(final(self).text(), first_pos(start, end))
                &&& *final(self) == (UIState { lines: final(self).lines, ..*old(self) })
            },
    {
        let ghost t = self.text();
        if !(self.position_valid(start) && self.position_valid(end)) {
            return None;
        }
        let forward = start.0 < end.0 || (start.0 == end.0 && start.1 <= end.1);
        let a = if forward {
            start
        } else {
            end
        };
        let b = if forward {
            end
        } else {
            start
        };
        let lb_len = self.lines[b.0 - 1].len();
        if (a.1 - 1) >= usize::MAX - (lb_len - (b.1 - 1)) {
            return None;
        }
        let ghost la = t[a.0 - 1];
        let ghost lb = t[b.0 - 1];
        let ghost joined = la.subrange(0, a.1 - 1) + lb.subrange(b.1 - 1, lb.len() as int);
        let text: Vec<char>;
        if a.0 == b.0 {
            let idx = a.0 - 1;
            let mut line = take_line(&mut self.lines, idx);
            let mut tail = line.split_off(b.1 - 1);
            let removed = line.split_off(a.1 - 1);
            line.append(&mut tail);
            assert(line@ =~= joined);
            put_line(&mut self.lines, idx, line);
            assert(self.text() =~= lines_after_delete(t, start, end));
            text = removed;
            assert(range_pieces(t, start, end) =~= seq![la.subrange(a.1 - 1, b.1 - 1)]);
        } else {
            let mut rest = self.lines.split_off(b.0);
            assert(lines_view(rest@) =~= t.subrange(b.0 as int, t.len() as int));
            let mut last = self.lines.pop().unwrap();
            let middle = self.lines.split_off(a.0);
            let mut first = self.lines.pop().unwrap();
            let first_tail = first.split_off(a.1 - 1);
            let mut last_tail = last.split_off(b.1 - 1);
            first.append(&mut last_tail);
            assert(first@ =~= joined);
            assert(lines_view(middle@) =~= t.subrange(a.0 as int, b.0 - 1));
            let ghost before = self.lines@;
            assert(lines_view(before) =~= t.subrange(0, a.0 - 1));
            self.lines.push(first);
            self.lines.append(&mut rest);
            assert(self.text() =~= lines_after_delete(t, start, end));
            text = join_text(&first_tail, &middle, &last);
            assert(range_pieces(t, start, end) =~= seq![first_tail@] + lines_view(middle@) + seq![
                last@,
            ]);
        }
        proof {
            let nt = self.text();
            assert forall|i: int| 0 <= i < nt.len() implies #[trigger] nt[i].len() < usize::MAX by {
                if i < a.0 - 1 {
                    assert(nt[i] == t[i]);
                } else if i > a.0 - 1 {
                    assert(nt[i] == t[i + (b.0 - a.0)]);
                }
            }
            assert(nt[a.0 - 1] == joined);
            assert(valid_pos(nt, a));
        }
        Some(UndoSelection { text: string_of(text.as_slice()), start, end })
    }

    /// Selects from `start` to `end` with the cursor on `end`, where both lie
    /// inside the text; otherwise nothing changes.
    pub fn set_selection(&mut self, start: (usize, usize), end: (usize, usize))
        requires
            old(self).wf(),
        ensures
            final(self).wf(),
            valid_pos(old(self).text(), start) && valid_pos(old(self).text(), end) ==> *final(self)
                == (UIState {
                selection: Some(Selection { start, end }),
                cursor_line: end.0,
                cursor_column: end.1,
                ..*old(self)
            }),
            !(valid_pos(old(self).text(), start) && valid_pos(old(self).text(), end))
                ==> *final(self) == *old(self),
    {
        if self.position_valid(start) && self.position_valid(end) {
            self.selection = Some(Selection { start, end });
            self.cursor_line = end.0;
            self.cursor_column = end.1;
        }
    }

    /// Removes the selected text, if any, puts the cursor on the earlier end
    /// of the selection and returns what was removed.
    pub fn delete_selection(&mut self) -> (r: Option<UndoSelection>)
        requires
            old(self).wf(),
        ensures
            final(self).wf(),
            old(self).selection is None ==> r is None && *final(self) == *old(self),
            old(self).selection is Some && deletable(
                old(self).text(),
                old(self).selection->0.start,
                old(self).selection->0.end,
            ) ==> {
                let s = old(self).selection->0;
                &&& r is Some
                &&& r->0.text@ == join_lines(range_pieces(old(self).text(), s.start, s.end))
                &&& r->0.start == s.start
                &&& r->0.end == s.end
                &&& final(self).text() == lines_after_delete(old(self).text(), s.start, s.end)
                &&& *final(self) == (UIState {
                    lines: final(self).lines,
                    cursor_line: first_pos(s.start, s.end).0,
                    cursor_column: first_pos(s.start, s.end).1,
                    selection: None,
                    ..*old(self)
                })
            },
            old(self).selection is Some && !deletable(
                old(self).text(),
                old(self).selection->0.start,
                old(self).selection->0.end,
            ) ==> r is None && *final(self) == (UIState { selection: None, ..*old(self) }),
    {
        match self.selection {
            None => None,
            Some(selection) => {
                let r = self.delete_range(selection.start, selection.end);
                if r.is_some() {
                    let first = selection.get_first_position();
                    self.cursor_line = first.0;
                    self.cursor_column = first.1;
                }
                self.selection = None;
                r
            },
        }
    }
}

} // verus!
