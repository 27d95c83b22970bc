//! Tab and back-tab: indenting and outdenting the current line or every
//! line of the selection.
use vstd::prelude::*;
use crate::buffer::{lines_fit, lines_view, spaces, valid_pos};
use crate::editing::Config;
use crate::editor::{same_view, UIState};
use crate::ranges::{put_line, take_line};
use crate::selection::Selection;
use crate::text::{leading_ws, push_all, space_vec};
use crate::undo_redo::UndoRedo;

verus! {

/// What one tab inserts.
pub open spec fn tab_unit(tabs_to_spaces: bool, width: usize) -> Seq<char> {
    if tabs_to_spaces {
        spaces(width as nat)
    } else {
        seq!['\t']
    }
}

/// Lines `lo..=hi` (1-based) with `unit` put in front of each.
pub open spec fn indented(t: Seq<Seq<char>>, lo: usize, hi: usize, unit: Seq<char>) -> Seq<Seq<char>> {
    Seq::new(t.len(), |i: int| if lo - 1 <= i <= hi - 1 { unit + t[i] } else { t[i] })
}

/// How many leading whitespace characters a back-tab removes from a line.
pub open spec fn outdent_width(line: Seq<char>, width: usize) -> nat {
    if leading_ws(line) <= width {
        leading_ws(line)
    } else {
        width as nat
    }
}

/// Lines `lo..=hi` (1-based) with up to `width` leading whitespace
/// characters taken from each.
pub open spec fn outdented(t: Seq<Seq<char>>, lo: usize, hi: usize, width: usize) -> Seq<Seq<char>> {
    Seq::new(
        t.len(),
        |i: int|
            if lo - 1 <= i <= hi - 1 {
                t[i].subrange(outdent_width(t[i], width) as int, t[i].len() as int)
            } else {
                t[i]
            },
    )
}

/// A position whose line lost `r` leading characters: its column moves left
/// by `r`, but not before column 1.
pub open spec fn shifted_left(p: (usize, usize), r: nat) -> (usize, usize) {
    if p.1 <= r {
        (p.0, 1)
    } else {
        (p.0, (p.1 - r) as usize)
    }
}

/// Whether every line `lo..=hi` (1-based) can take `extra` more characters.
pub open spec fn room_for(t: Seq<Seq<char>>, lo: usize, hi: usize, extra: nat) -> bool {
    forall|i: int| lo - 1 <= i <= hi - 1 ==> #[trigger] t[i].len() + extra < usize::MAX
}

impl UIState {
    /// Whether lines `lo..=hi` (1-based) can each take `extra` more
    /// characters.
    fn lines_have_room(&self, lo: usize, hi: usize, extra: usize) -> (r: bool)
        requires
            1 <= lo <= hi <= self.lines@.len(),
        ensures
            r == room_for(self.text(), lo, hi, extra as nat),
    {
        let mut i: usize = lo - 1;
        while i < hi
            invariant
                lo - 1 <= i <= hi,
                hi <= self.lines@.len(),
                room_for(self.text(), lo, i, extra as nat),
            decreases hi - i,
        {
            proof {
                assert(self.text()[i as int] == self.lines@[i as int]@);
            }
            if self.lines[i].len() >= usize::MAX - extra {
                return false;
            }
            i = i + 1;
        }
        true
    }

    /// Tab. With a selection, every selected line gets the indentation unit
    /// (`whitespaces_amount` spaces, or a tab character) in front, and both
    /// ends of the selection move right with their lines; the cursor goes
    /// to the selection's active end. Without one, the unit is typed at the
    /// cursor. Where a line would be too long for its end column to fit,
    /// nothing changes.
    pub fn handle_tab_key(&mut self, config: &Config, undo_redo: &mut UndoRedo)
        requires
            old(self).wf(),
        ensures
            final(self).wf(),
            final(self).vertical_offset_target == 0,
            same_view(*old(self), *final(self)),
            final(self).editor_scroll_offset == old(self).editor_scroll_offset,
            ({
                let t = old(self).text();
                let (l, c) = old(self).cursor();
                let unit = tab_unit(config.tabs_to_spaces, config.whitespaces_amount);
                let w = unit.len();
                &&& old(self).selection is None && t[l - 1].len() + w + 1 < usize::MAX ==> {
                    &&& final(self).text() == t.update(
                        l - 1,
                        t[l - 1].subrange(0, c - 1) + unit + t[l - 1].subrange(
                            c - 1,
                            t[l - 1].len() as int,
                        ),
                    )
                    &&& final(self).cursor() == (l, (c + w) as usize)
                    &&& final(self).selection is None
                }
                &&& old(self).selection is Some ==> {
                    let s = old(self).selection->0;
                    let lo = if s.start.0 <= s.end.0 { s.start.0 } else { s.end.0 };
                    let hi = if s.start.0 <= s.end.0 { s.end.0 } else { s.start.0 };
                    &&& room_for(t, lo, hi, w) ==> {
                        &&& final(self).text() == indented(t, lo, hi, unit)
                        &&& final(self).selection == Some(
                            Selection {
                                start: (s.start.0, (s.start.1 + w) as usize),
                                end: (s.end.0, (s.end.1 + w) as usize),
                            },
                        )
                        &&& final(self).cursor() == (s.end.0, (s.end.1 + w) as usize)
                    }
                    &&& !room_for(t, lo, hi, w) ==> final(self).text() == t
                        && final(self).selection == old(self).selection
                }
            }),
    {
        self.vertical_offset_target = 0;
        let unit: Vec<char> = if config.tabs_to_spaces {
            space_vec(config.whitespaces_amount)
        } else {
            let mut u: Vec<char> = Vec::new();
            u.push('\t');
            u
        };
        let w = unit.len();
        assert(forall|j: int| 0 <= j < unit@.len() ==> #[trigger] unit@[j] == ' ' || unit@[j] == '\t');
        match self.selection {
            Some(selection) => {
                let (start_line, start_column) = selection.start;
                let (end_line, end_column) = selection.end;
                let lo = if start_line <= end_line { start_line } else { end_line };
                let hi = if start_line <= end_line { end_line } else { start_line };
                if !self.lines_have_room(lo, hi, w) {
                    return;
                }
                let ghost t = self.text();
                proof {
                    assert(t[start_line - 1].len() + w < usize::MAX);
                    assert(t[end_line - 1].len() + w < usize::MAX);
                }
                let mut i: usize = lo - 1;
                let ghost snap = *self;
                while i < hi
                    invariant
                        *self == (UIState { lines: self.lines, ..snap }),
                        lo - 1 <= i <= hi,
                        1 <= lo,
                        hi <= t.len(),
                        t.len() == self.lines@.len(),
                        unit@ == tab_unit(config.tabs_to_spaces, config.whitespaces_amount),
                        self.text() == Seq::new(t.len(), |k: int| if lo - 1 <= k < i { unit@ + t[k] } else { t[k] }),
                    decreases hi - i,
                {
                    assert(self.text()[i as int] == t[i as int]);
                    let mut line = take_line(&mut self.lines, i);
                    let mut indented_line = Vec::new();
                    push_all(&mut indented_line, unit.as_slice());
                    push_all(&mut indented_line, line.as_slice());
                    put_line(&mut self.lines, i, indented_line);
                    i = i + 1;
                    assert(self.text() =~= Seq::new(t.len(), |k: int| if lo - 1 <= k < i { unit@ + t[k] } else { t[k] }));
                }
                assert(self.text() =~= indented(t, lo, hi, unit@));
                self.selection = Some(Selection {
                    start: (start_line, start_column + w),
                    end: (end_line, end_column + w),
                });
                self.cursor_line = end_line;
                self.cursor_column = end_column + w;
                proof {
                    let nt = self.text();
                    assert forall|k: int| 0 <= k < nt.len() implies #[trigger] nt[k].len() < usize::MAX by {
                        if lo - 1 <= k <= hi - 1 {
                            assert(t[k].len() + w < usize::MAX);
                        }
                    }
                    assert(nt[start_line - 1] == unit@ + t[start_line - 1]);
                    assert(nt[end_line - 1] == unit@ + t[end_line - 1]);
                }
            },
            None => {
                let idx = self.cursor_line - 1;
                let ghost t = self.text();
                let ghost c = self.cursor_column;
                proof {
                    assert(t[idx as int] == self.lines@[idx as int]@);
                }
                if w >= usize::MAX - 1 || self.lines[idx].len() >= usize::MAX - 1 - w {
                    return;
                }
                let mut k: usize = 0;
                proof {
                    let line = t[idx as int];
                    assert(line.subrange(0, c - 1) + unit@.subrange(0, 0) + line.subrange(c - 1, line.len() as int) =~= line);
                    assert(t.update(idx as int, line) =~= t);
                }
                while k < w
                    invariant
                        k <= w,
                        w == unit@.len(),
                        forall|j: int| 0 <= j < unit@.len() ==> #[trigger] unit@[j] == ' ' || unit@[j] == '\t',
                        idx < t.len(),
                        idx == self.cursor_line - 1,
                        t[idx as int].len() + w + 1 < usize::MAX,
                        self.wf(),
                        same_view(*old(self), *self),
                        self.editor_scroll_offset == old(self).editor_scroll_offset,
                        self.vertical_offset_target == 0,
                        self.selection is None,
                        self.cursor_column == c + k,
                        self.text() == t.update(idx as int, t[idx as int].subrange(0, c - 1) + unit@.subrange(0, k as int) + t[idx as int].subrange(c - 1, t[idx as int].len() as int)),
                        1 <= c <= t[idx as int].len() + 1,
                    decreases w - k,
                {
                    let ghost before = self.text();
                    proof {
                        assert(before[idx as int].len() == t[idx as int].len() + k);
                    }
                    self.insert_character(unit[k], undo_redo);
                    k = k + 1;
                    proof {
                        let line = t[idx as int];
                        assert(before[idx as int].insert(c + k - 2, unit@[k - 1]) =~= line.subrange(0, c - 1) + unit@.subrange(0, k as int) + line.subrange(c - 1, line.len() as int));
                        assert(self.text() =~= t.update(idx as int, line.subrange(0, c - 1) + unit@.subrange(0, k as int) + line.subrange(c - 1, line.len() as int)));
                    }
                }
                assert(unit@.subrange(0, w as int) =~= unit@);
            },
        }
    }

    /// Back-tab: takes up to `whitespaces_amount` leading whitespace
    /// characters from the current line, or from every selected line; the
    /// cursor and both ends of the selection move left with their lines, but
    /// not before column 1.
    pub fn handle_backtab_key(&mut self, config: &Config)
        requires
            old(self).wf(),
        ensures
            final(self).wf(),
            final(self).vertical_offset_target == 0,
            same_view(*old(self), *final(self)),
            final(self).editor_scroll_offset == old(self).editor_scroll_offset,
            ({
                let t = old(self).text();
                let (l, c) = old(self).cursor();
                let w = config.whitespaces_amount;
                &&& old(self).selection is None ==> {
                    &&& final(self).text() == outdented(t, l, l, w)
                    &&& final(self).cursor() == shifted_left((l, c), outdent_width(t[l - 1], w))
                    &&& final(self).selection is None
                }
                &&& old(self).selection is Some ==> {
                    let s = old(self).selection->0;
                    let lo = if s.start.0 <= s.end.0 { s.start.0 } else { s.end.0 };
                    let hi = if s.start.0 <= s.end.0 { s.end.0 } else { s.start.0 };
                    &&& final(self).text() == outdented(t, lo, hi, w)
                    &&& final(self).selection == Some(
                        Selection {
                            start: shifted_left(s.start, outdent_width(t[s.start.0 - 1], w)),
                            end: shifted_left(s.end, outdent_width(t[s.end.0 - 1], w)),
                        },
                    )
                    &&& lo <= l <= hi ==> final(self).cursor() == shifted_left(
                        (l, c),
                        outdent_width(t[l - 1], w),
                    )
                    &&& !(lo <= l <= hi) ==> final(self).cursor() == (l, c)
                }
            }),
    {
        self.vertical_offset_target = 0;
        let w = config.whitespaces_amount;
        let ghost t = self.text();
        let (lo, hi) = match self.selection {
            Some(s) => if s.start.0 <= s.end.0 { (s.start.0, s.end.0) } else { (s.end.0, s.start.0) },
            None => (self.cursor_line, self.cursor_line),
        };
        let ghost sel0 = self.selection;
        let (l, c) = (self.cursor_line, self.cursor_column);
        let mut cursor_removed: usize = 0;
        let mut start_removed: usize = 0;
        let mut end_removed: usize = 0;
        let mut i: usize = lo - 1;
        let ghost snap = *self;
        while i < hi
            invariant
                *self == (UIState { lines: self.lines, ..snap }),
                lo - 1 <= i <= hi,
                1 <= lo <= hi <= t.len(),
                t.len() == self.lines@.len(),
                self.selection == sel0,
                self.cursor() == (l, c),
                self.vertical_offset_target == 0,
                self.text() == Seq::new(t.len(), |k: int| if lo - 1 <= k < i { t[k].subrange(outdent_width(t[k], w) as int, t[k].len() as int) } else { t[k] }),
                lo - 1 <= l - 1 < i ==> cursor_removed == outdent_width(t[l - 1], w),
                !(lo - 1 <= l - 1 < i) ==> cursor_removed == 0,
                sel0 is Some ==> (lo - 1 <= sel0->0.start.0 - 1 < i ==> start_removed == outdent_width(t[sel0->0.start.0 - 1], w)),
                sel0 is Some ==> (!(lo - 1 <= sel0->0.start.0 - 1 < i) ==> start_removed == 0),
                sel0 is Some ==> (lo - 1 <= sel0->0.end.0 - 1 < i ==> end_removed == outdent_width(t[sel0->0.end.0 - 1], w)),
                sel0 is Some ==> (!(lo - 1 <= sel0->0.end.0 - 1 < i) ==> end_removed == 0),
            decreases hi - i,
        {
            proof {
                assert(self.text()[i as int] == t[i as int]);
                assert(t[i as int] == self.lines@[i as int]@);
                crate::text::lemma_leading_ws_bound(t[i as int]);
            }
            let whitespaces = UIState::calculate_whitespace_num(self.lines[i].as_slice());
            let remove_num = if whitespaces <= w { whitespaces } else { w };
            let mut line = take_line(&mut self.lines, i);
            let kept = line.split_off(remove_num);
            put_line(&mut self.lines, i, kept);
            if i + 1 == l {
                cursor_removed = remove_num;
            }
            match self.selection {
                Some(s) => {
                    if i + 1 == s.start.0 {
                        start_removed = remove_num;
                    }
                    if i + 1 == s.end.0 {
                        end_removed = remove_num;
                    }
                },
                None => {},
            }
            i = i + 1;
            assert(self.text() =~= Seq::new(t.len(), |k: int| if lo - 1 <= k < i { t[k].subrange(outdent_width(t[k], w) as int, t[k].len() as int) } else { t[k] }));
        }
        assert(self.text() =~= outdented(t, lo, hi, w));
        if c <= cursor_removed {
            self.cursor_column = 1;
        } else {
            self.cursor_column = c - cursor_removed;
        }
        match self.selection {
            Some(s) => {
                let start = if s.start.1 <= start_removed { (s.start.0, 1) } else { (s.start.0, s.start.1 - start_removed) };
                let end = if s.end.1 <= end_removed { (s.end.0, 1) } else { (s.end.0, s.end.1 - end_removed) };
                self.selection = Some(Selection { start, end });
            },
            None => {},
        }
        proof {
            let nt = self.text();
            assert forall|k: int| 0 <= k < nt.len() implies #[trigger] nt[k].len() < usize::MAX
                && crate::buffer::plain_line(nt[k]) by {
                crate::text::lemma_leading_ws_bound(t[k]);
                assert(nt[k].len() <= t[k].len());
                crate::buffer::lemma_no_breaks_line(t, k);
                if lo - 1 <= k <= hi - 1 {
                    crate::buffer::lemma_plain_subrange(t[k], outdent_width(t[k], w) as int, t[k].len() as int);
                }
            }
            crate::buffer::lemma_no_breaks_intro(nt);
        }
    }
}

/// With an indentation width of four: a tab puts four spaces, and a
/// back-tab on a line with exactly two leading whitespace characters takes
/// just those two, moving a cursor that stood within them to column 1 and
/// any other cursor on the line two columns left.
pub proof fn lemma_width_four(t: Seq<Seq<char>>, l: usize, c: usize)
    requires
        valid_pos(t, (l, c)),
        leading_ws(t[l - 1]) == 2,
    ensures
        tab_unit(true, 4) == spaces(4),
        tab_unit(true, 4).len() == 4,
        outdented(t, l, l, 4)[l - 1] == t[l - 1].subrange(2, t[l - 1].len() as int),
        forall|i: int| 0 <= i < t.len() && i != l - 1 ==> #[trigger] outdented(t, l, l, 4)[i] == t[i],
        c <= 2 ==> shifted_left((l, c), outdent_width(t[l - 1], 4)) == (l, 1usize),
        c > 2 ==> shifted_left((l, c), outdent_width(t[l - 1], 4)) == (l, (c - 2) as usize),
{
}

} // verus!
