//! Multi-line text insertion with indentation reflow, pasting, and the text
//! a copy request puts on the clipboard.
use vstd::prelude::*;
use crate::buffer::{common_indent, common_indent_from, insert_pieces, insert_text_result,
    lines_fit, lines_view, normalize_breaks, numbered, reflow_line, reflowed_rest, spaces,
    split_lines, valid_pos};
use crate::editor::{same_view, UIState};
use crate::ranges::{put_line, take_line};
use crate::text::{chars_of, leading_ws, push_all, push_range, space_vec,
    string_of};
use crate::buffer::{first_pos, join_lines, last_pos, range_pieces, no_breaks, plain_line,
    lemma_no_breaks_intro, lemma_no_breaks_line, lemma_plain_concat, lemma_plain_subrange,
    lemma_plain_spaces};
use crate::editing::{cursor_without_selection, removed_selection, text_without_selection};
use crate::undo_redo::{recorded, ActionView, UndoAction, UndoRedo};

verus! {

/// The view of numbered pieces.
pub open spec fn numbered_view(data: Seq<(usize, Vec<char>)>) -> Seq<(usize, Seq<char>)> {
    data.map_values(|e: (usize, Vec<char>)| (e.0, e.1@))
}

/// `\r\n` and lone `\r` replaced by `\n`.
pub fn normalize_line_breaks(text: &Vec<char>) -> (r: Vec<char>)
    ensures
        r@ == normalize_breaks(text@),
        r@.len() <= text@.len(),
{
    let mut out: Vec<char> = Vec::new();
    let mut i: usize = 0;
    assert(text@.subrange(0, text@.len() as int) =~= text@);
    while i < text.len()
        invariant
            i <= text@.len(),
            out@ + normalize_breaks(text@.subrange(i as int, text@.len() as int)) == normalize_breaks(
                text@,
            ),
            out@.len() <= i,
        decreases text.len() - i,
    {
        let ghost rest = text@.subrange(i as int, text@.len() as int);
        if text[i] == '\r' {
            out.push('\n');
            if i + 1 < text.len() && text[i + 1] == '\n' {
                assert(rest.subrange(2, rest.len() as int) =~= text@.subrange(i + 2, text@.len() as int));
                i = i + 2;
            } else {
                assert(rest.drop_first() =~= text@.subrange(i + 1, text@.len() as int));
                i = i + 1;
            }
        } else {
            out.push(text[i]);
            assert(rest.drop_first() =~= text@.subrange(i + 1, text@.len() as int));
            i = i + 1;
        }
        assert(out@ + normalize_breaks(text@.subrange(i as int, text@.len() as int)) =~= normalize_breaks(text@));
    }
    assert(text@.subrange(i as int, text@.len() as int) =~= Seq::<char>::empty());
    assert(out@ =~= normalize_breaks(text@));
    out
}

pub proof fn lemma_split_len(text: Seq<char>)
    ensures
        split_lines(text).len() >= 1,
    decreases text.len(),
{
    if text.len() > 0 {
        lemma_split_len(text.drop_last());
    }
}

proof fn lemma_split_bounds(text: Seq<char>)
    ensures
        1 <= split_lines(text).len() <= text.len() + 1,
        forall|i: int| 0 <= i < split_lines(text).len() ==> #[trigger] split_lines(text)[i].len() <= text.len(),
    decreases text.len(),
{
    if text.len() > 0 {
        lemma_split_bounds(text.drop_last());
    }
}

/// `text` split at each `'\n'`, every piece numbered from zero.
pub fn split_numbered(text: &Vec<char>) -> (r: Vec<(usize, Vec<char>)>)
    ensures
        r@.len() == split_lines(text@).len(),
        forall|j: int| 0 <= j < r@.len() ==> (#[trigger] r@[j]).0 == j && r@[j].1@ == split_lines(text@)[j],
        numbered_view(r@) == numbered(split_lines(text@)),
{
    let mut out: Vec<(usize, Vec<char>)> = Vec::new();
    let mut cur: Vec<char> = Vec::new();
    let mut i: usize = 0;
    assert(text@.subrange(0, 0) =~= Seq::<char>::empty());
    while i < text.len()
        invariant
            i <= text@.len(),
            out@.len() <= i,
            split_lines(text@.subrange(0, i as int)).len() == out@.len() + 1,
            forall|j: int| 0 <= j < out@.len() ==> (#[trigger] out@[j]).0 == j && out@[j].1@
                == split_lines(text@.subrange(0, i as int))[j],
            cur@ == split_lines(text@.subrange(0, i as int))[out@.len() as int],
        decreases text.len() - i,
    {
        let ghost before = split_lines(text@.subrange(0, i as int));
        let ghost x = text@.subrange(0, i + 1);
        assert(x.drop_last() =~= text@.subrange(0, i as int));
        assert(x.last() == text@[i as int]);
        if text[i] == '\n' {
            let k = out.len();
            let piece = cur;
            cur = Vec::new();
            out.push((k, piece));
        } else {
            cur.push(text[i]);
        }
        i = i + 1;
    }
    assert(text@.subrange(0, i as int) =~= text@);
    let k = out.len();
    out.push((k, cur));
    assert(numbered_view(out@) =~= numbered(split_lines(text@)));
    out
}

/// A continuation line re-indented from width `common` to width `dest`.
pub fn reflow_piece(s: &[char], common: usize, dest: usize) -> (r: Vec<char>)
    requires
        dest + s@.len() < usize::MAX,
    ensures
        r@ == reflow_line(s@, common as nat, dest as nat),
{
    if dest >= common {
        let mut r = space_vec(dest - common);
        push_all(&mut r, s);
        r
    } else {
        let skip = common - dest;
        let mut r: Vec<char> = Vec::new();
        if skip <= s.len() {
            let mut i: usize = skip;
            while i < s.len()
                invariant
                    skip <= i <= s@.len(),
                    r@ == s@.subrange(skip as int, i as int),
                decreases s.len() - i,
            {
                r.push(s[i]);
                i = i + 1;
                assert(r@ =~= s@.subrange(skip as int, i as int));
            }
        }
        r
    }
}

/// Whether inserting `text` on line `l` keeps every line short enough for
/// its end column to fit: twice the line's length plus the text's stays
/// below `usize::MAX`.
pub open spec fn insert_room(t: Seq<Seq<char>>, l: usize, text: Seq<char>) -> bool {
    2 * t[l - 1].len() + normalize_breaks(text).len() < usize::MAX
}

/// The lines an editor opens with: the text split at line breaks of any
/// kind, where a break at the very end starts no extra line.
pub open spec fn initial_lines(text: Seq<char>) -> Seq<Seq<char>> {
    let p = split_lines(normalize_breaks(text));
    if p.len() > 1 && p.last().len() == 0 {
        p.drop_last()
    } else {
        p
    }
}

impl UIState {
    /// An editor over `content`, split into lines at `\n`, `\r\n` or `\r`,
    /// with the gutter sized for the number of lines.
    pub fn from_text(content: &str) -> (r: Self)
        requires
            content@.len() < usize::MAX,
        ensures
            r.wf(),
            r.text() == initial_lines(content@),
            r.cursor() == (1usize, 1usize),
            r.selection is None,
            !r.should_show_cursor,
    {
        let chars = chars_of(content);
        let normalized = normalize_line_breaks(&chars);
        let mut pieces = split_numbered(&normalized);
        let ghost p = split_lines(normalized@);
        proof {
            lemma_split_bounds(normalized@);
        }
        let mut lines: Vec<Vec<char>> = Vec::new();
        let n = pieces.len();
        let mut i: usize = 0;
        while i < n
            invariant
                i <= n,
                n == pieces@.len(),
                n == p.len(),
                forall|j: int| i <= j < n ==> #[trigger] pieces@[j].1@ == p[j],
                lines_view(lines@) == p.subrange(0, i as int),
            decreases n - i,
        {
            assert(pieces@[i as int].1@ == p[i as int]);
            let mut e: (usize, Vec<char>) = (0, Vec::new());
            pieces.set_and_swap(i, &mut e);
            let ghost prev = lines_view(lines@);
            lines.push(e.1);
            assert(lines_view(lines@) =~= prev.push(p[i as int]));
            i = i + 1;
            assert(lines_view(lines@) =~= p.subrange(0, i as int));
        }
        assert(p.subrange(0, n as int) =~= p);
        if lines.len() > 1 && lines[lines.len() - 1].len() == 0 {
            let ghost before = lines_view(lines@);
            lines.pop();
            assert(lines_view(lines@) =~= before.drop_last());
        }
        proof {
            let t = lines_view(lines@);
            lemma_pieces_plain(chars@);
            assert forall|k: int| 0 <= k < t.len() implies #[trigger] t[k].len() < usize::MAX
                && plain_line(t[k]) by {
                assert(t[k] == p[k]);
                lemma_no_breaks_line(p, k);
            }
            lemma_no_breaks_intro(t);
        }
        UIState::with_lines(lines)
    }

    /// The text a copy request puts on the clipboard: the selected text
    /// with lines joined by `'\n'`; `None` without a selection, or when an
    /// end of the selection lies outside the text.
    pub fn handle_copy(&self) -> (r: Option<String>)
        ensures
            self.selection is None ==> r is None,
            self.selection is Some ==> {
                let s = self.selection->0;
                &&& (valid_pos(self.text(), s.start) && valid_pos(self.text(), s.end)) <==> r is Some
                &&& r is Some ==> r->0@ == join_lines(range_pieces(self.text(), s.start, s.end))
            },
    {
        match self.selection {
            None => None,
            Some(selection) => {
                if !(self.position_valid(selection.start) && self.position_valid(selection.end)) {
                    return None;
                }
                let text = self.text_between(selection.start, selection.end);
                Some(string_of(text.as_slice()))
            },
        }
    }

    /// The text between two positions, in either order, with lines joined
    /// by `'\n'`.
    pub fn text_between(&self, start: (usize, usize), end: (usize, usize)) -> (r: Vec<char>)
        requires
            valid_pos(self.text(), start),
            valid_pos(self.text(), end),
        ensures
            r@ == join_lines(range_pieces(self.text(), start, end)),
    {
        let ghost t = self.text();
        let forward = start.0 < end.0 || (start.0 == end.0 && start.1 <= end.1);
        let a = if forward { start } else { end };
        let b = if forward { end } else { start };
        proof {
            assert(t[a.0 - 1] == self.lines@[a.0 - 1]@);
            assert(t[b.0 - 1] == self.lines@[b.0 - 1]@);
        }
        let mut r: Vec<char> = Vec::new();
        if a.0 == b.0 {
            push_range(&mut r, self.lines[a.0 - 1].as_slice(), a.1 - 1, b.1 - 1);
            assert(range_pieces(t, start, end) =~= seq![t[a.0 - 1].subrange(a.1 - 1, b.1 - 1)]);
            return r;
        }
        let first = &self.lines[a.0 - 1];
        push_range(&mut r, first.as_slice(), a.1 - 1, first.len());
        let ghost ft = t[a.0 - 1].subrange(a.1 - 1, t[a.0 - 1].len() as int);
        let mut i: usize = a.0;
        assert(seq![ft] + t.subrange(a.0 as int, a.0 as int) =~= seq![ft]);
        while i + 1 < b.0
            invariant
                a.0 <= i < b.0,
                b.0 <= t.len(),
                t == self.text(),
                r@ == join_lines(seq![ft] + t.subrange(a.0 as int, i as int)),
            decreases b.0 - i,
        {
            let ghost p = seq![ft] + t.subrange(a.0 as int, i as int);
            let ghost q = seq![ft] + t.subrange(a.0 as int, i + 1);
            assert(q.drop_last() =~= p);
            assert(t[i as int] == self.lines@[i as int]@);
            r.push('\n');
            push_all(&mut r, self.lines[i].as_slice());
            i = i + 1;
            assert(r@ =~= join_lines(p) + seq!['\n'] + q.last());
        }
        let ghost p = seq![ft] + t.subrange(a.0 as int, b.0 - 1);
        let ghost lt = t[b.0 - 1].subrange(0, b.1 - 1);
        assert((p + seq![lt]).drop_last() =~= p);
        r.push('\n');
        push_range(&mut r, self.lines[b.0 - 1].as_slice(), 0, b.1 - 1);
        assert(r@ =~= join_lines(p) + seq!['\n'] + lt);
        assert(range_pieces(t, start, end) =~= p + seq![lt]);
        r
    }

    /// Pastes `data` at the cursor, replacing any selection: the text goes
    /// in with line breaks normalized and continuation lines re-indented to
    /// the current line, and the paste is committed to the undo stack as one
    /// record. Empty text changes nothing.
    pub fn handle_paste(&mut self, data: String, undo_redo: &mut UndoRedo)
        requires
            old(self).wf(),
        ensures
            final(self).wf(),
            same_view(*old(self), *final(self)),
            final(self).editor_scroll_offset == old(self).editor_scroll_offset,
            data@.len() == 0 ==> *final(self) == *old(self) && final(undo_redo).view() == old(
                undo_redo).view(),
            data@.len() > 0 ==> {
                let t0 = text_without_selection(*old(self));
                let (l, c) = cursor_without_selection(*old(self));
                &&& final(self).vertical_offset_target == 0
                &&& final(self).selection is None
                &&& insert_room(t0, l, data@) ==> {
                    let res = insert_text_result(t0, l, c, data@, true);
                    &&& final(self).text() == res.0
                    &&& final(self).cursor_line == res.1.0
                    &&& final(self).cursor_column == res.1.1
                    &&& exists|now: u64| final(undo_redo).view() == #[trigger] recorded(
                        old(undo_redo).view(),
                        ActionView::Paste(
                            data@,
                            (l, c),
                            (res.1.0 as usize, res.1.1 as usize),
                            removed_selection(*old(self)),
                        ),
                        now,
                    )
                }
            },
    {
        if data.as_str().is_empty() {
            return;
        }
        self.vertical_offset_target = 0;
        let removed_selection = self.delete_selection();
        let start_position = (self.cursor_line, self.cursor_column);
        let chars = chars_of(data.as_str());
        self.insert_chars(&chars, true);
        let end_position = (self.cursor_line, self.cursor_column);
        undo_redo.add_undo_action(UndoAction::Paste(data, start_position, end_position, removed_selection));
    }

    /// The common indentation of pasted lines (see `common_indent`).
    pub fn get_common_whitespaces_prefix(data: &[(usize, Vec<char>)]) -> (r: usize)
        ensures
            r == common_indent(numbered_view(data@)),
    {
        let ghost d = numbered_view(data@);
        let mut final_whitespaces: usize = 0;
        let mut i: usize = 0;
        assert(d.subrange(0, d.len() as int) =~= d);
        while i < data.len()
            invariant
                i <= data@.len(),
                d == numbered_view(data@),
                common_indent(d) == common_indent_from(d.subrange(i as int, d.len() as int), final_whitespaces as nat),
            decreases data.len() - i,
        {
            let ghost rest = d.subrange(i as int, d.len() as int);
            assert(rest.drop_first() =~= d.subrange(i + 1, d.len() as int));
            assert(rest[0] == (data@[i as int].0, data@[i as int].1@));
            let line = &data[i].1;
            if line.len() == 0 {
                i = i + 1;
                continue;
            }
            let whitespaces = UIState::calculate_whitespace_num(line.as_slice());
            if data[i].0 == 0 {
                if whitespaces != 0 {
                    return whitespaces;
                } else {
                    final_whitespaces = whitespaces;
                }
            } else if whitespaces == 0 {
                return whitespaces;
            } else if final_whitespaces == 0 || whitespaces < final_whitespaces {
                final_whitespaces = whitespaces;
            }
            i = i + 1;
        }
        final_whitespaces
    }

    /// Inserts `text` at the cursor and leaves the cursor after it. Line
    /// breaks of any kind split the text into pieces: one piece goes into
    /// the current line; with more, the rest of the current line moves to
    /// the end of the last piece, and with `add_whitespaces` each
    /// continuation line is re-indented from the pieces' common indentation
    /// to the current line's. Where the result would hold a line too long
    /// for its end column to fit, nothing changes.
    pub fn insert_text(&mut self, data: String, add_whitespaces: bool)
        requires
            old(self).wf(),
        ensures
            final(self).wf(),
            insert_room(old(self).text(), old(self).cursor_line, data@) ==> {
                let res = insert_text_result(
                    old(self).text(),
                    old(self).cursor_line,
                    old(self).cursor_column,
                    data@,
                    add_whitespaces,
                );
                &&& final(self).text() == res.0
                &&& final(self).cursor_line == res.1.0
                &&& final(self).cursor_column == res.1.1
                &&& *final(self) == (UIState {
                    lines: final(self).lines,
                    cursor_line: final(self).cursor_line,
                    cursor_column: final(self).cursor_column,
                    selection: None,
                    ..*old(self)
                })
            },
            !insert_room(old(self).text(), old(self).cursor_line, data@) ==> *final(self) == (
            UIState { selection: None, ..*old(self) }),
    {
        let chars = chars_of(data.as_str());
        self.insert_chars(&chars, add_whitespaces);
    }

    /// `insert_text` on a vector of characters.
    pub fn insert_chars(&mut self, data: &Vec<char>, add_whitespaces: bool)
        requires
            old(self).wf(),
        ensures
            final(self).wf(),
            insert_room(old(self).text(), old(self).cursor_line, data@) ==> {
                let res = insert_text_result(
                    old(self).text(),
                    old(self).cursor_line,
                    old(self).cursor_column,
                    data@,
                    add_whitespaces,
                );
                &&& final(self).text() == res.0
                &&& final(self).cursor_line == res.1.0
                &&& final(self).cursor_column == res.1.1
                &&& *final(self) == (UIState {
                    lines: final(self).lines,
                    cursor_line: final(self).cursor_line,
                    cursor_column: final(self).cursor_column,
                    selection: None,
                    ..*old(self)
                })
            },
            !insert_room(old(self).text(), old(self).cursor_line, data@) ==> *final(self) == (
            UIState { selection: None, ..*old(self) }),
    {
        let ghost t = self.text();
        let ghost l = self.cursor_line;
        let ghost c = self.cursor_column;
        self.selection = None;
        let normalized = normalize_line_breaks(data);
        let idx = self.cursor_line - 1;
        proof {
            assert(t[idx as int] == self.lines@[idx as int]@);
        }
        let line_len = self.lines[idx].len();
        let room = usize::MAX - normalized.len();
        if line_len >= room || line_len >= room - line_len {
            assert(!insert_room(t, l, data@));
            assert(self.wf());
            return;
        }
        assert(insert_room(t, l, data@));
        let pieces = split_numbered(&normalized);
        let ghost p = split_lines(normalized@);
        proof {
            lemma_split_bounds(normalized@);
            assert(forall|i: int| 0 <= i < pieces@.len() ==> #[trigger] pieces@[i].1@ == p[i]);
            if add_whitespaces {
                crate::text::lemma_leading_ws_bound(t[idx as int]);
            }
        }
        let prefix_len = if add_whitespaces {
            UIState::get_common_whitespaces_prefix(pieces.as_slice())
        } else {
            0
        };
        let prev_line_whitespaces = if add_whitespaces {
            UIState::calculate_whitespace_num(self.lines[idx].as_slice())
        } else {
            0
        };
        proof {
            crate::text::lemma_leading_ws_bound(t[idx as int]);
        }
        let ghost common = prefix_len as nat;
        let ghost dest = prev_line_whitespaces as nat;
        let ghost head = t[idx as int].subrange(0, c - 1);
        let ghost tail = t[idx as int].subrange(c - 1, t[idx as int].len() as int);
        let mut line = take_line(&mut self.lines, idx);
        let mut tail_v = line.split_off(self.cursor_column - 1);
        assert(tail_v@ == tail);
        assert(line@ == head);
        push_all(&mut line, pieces[0].1.as_slice());
        if pieces.len() == 1 {
            push_all(&mut line, tail_v.as_slice());
            put_line(&mut self.lines, idx, line);
            self.cursor_column = self.cursor_column + pieces[0].1.len();
            proof {
                assert(self.text() =~= insert_pieces(t, l, c, p, common, dest).0);
            }
        } else {
            assert(line@ == head + p[0]);
            put_line(&mut self.lines, idx, line);
            let ghost lv = lines_view(self.lines@);
            assert(lv =~= t.update(idx as int, head + p[0]));
            let mut rest = self.lines.split_off(idx + 1);
            assert(lines_view(rest@) =~= lv.subrange(idx + 1, lv.len() as int));
            assert(lines_view(self.lines@) =~= lv.subrange(0, idx + 1));
            let ghost rest_v = lines_view(rest@);
            let ghost mid = reflowed_rest(p, common, dest);
            proof {
                assert(rest_v =~= t.subrange(l as int, t.len() as int));
                assert(lines_view(self.lines@) =~= t.subrange(0, l - 1).push(head + p[0]));
            }
            let k = pieces.len();
            let mut i: usize = 1;
            assert(dest + normalized@.len() < usize::MAX);
            let ghost snap = *self;
            while i + 1 < k
                invariant
                    1 <= i < k,
                    *self == (UIState { lines: self.lines, ..snap }),
                    dest == prev_line_whitespaces as nat,
                    common == prefix_len as nat,
                    1 <= l <= t.len(),
                    idx == l - 1,
                    k == pieces@.len(),
                    k == p.len(),
                    mid == reflowed_rest(p, common, dest),
                    forall|j: int| 0 <= j < k ==> #[trigger] pieces@[j].1@ == p[j],
                    forall|j: int| 0 <= j < k ==> p[j].len() <= normalized@.len(),
                    dest + normalized@.len() < usize::MAX,
                    lines_view(self.lines@) == t.subrange(0, l - 1).push(head + p[0]) + mid.subrange(0, i - 1),
                decreases k - i,
            {
                assert(pieces@[i as int].1@ == p[i as int]);
                assert(p[i as int].len() <= normalized@.len());
                let m = reflow_piece(pieces[i].1.as_slice(), prefix_len, prev_line_whitespaces);
                assert(m@ == mid[i - 1]);
                let ghost prev = lines_view(self.lines@);
                self.lines.push(m);
                assert(lines_view(self.lines@) =~= prev.push(mid[i - 1]));
                assert(mid.subrange(0, i - 1).push(mid[i - 1]) =~= mid.subrange(0, i as int));
                i = i + 1;
                assert(lines_view(self.lines@) =~= t.subrange(0, l - 1).push(head + p[0]) + mid.subrange(0, i - 1));
            }
            assert(pieces@[k - 1].1@ == p[k - 1]);
            assert(p[k - 1].len() <= normalized@.len());
            let mut m = reflow_piece(pieces[k - 1].1.as_slice(), prefix_len, prev_line_whitespaces);
            assert(m@ == mid[k - 2]);
            let last_len = m.len();
            push_all(&mut m, tail_v.as_slice());
            assert(m@ == mid[k - 2] + tail);
            let ghost prev = lines_view(self.lines@);
            self.lines.push(m);
            assert(lines_view(self.lines@) =~= prev.push(mid[k - 2] + tail));
            self.cursor_line = self.lines.len();
            let ghost prev2 = lines_view(self.lines@);
            let ghost rest_now = lines_view(rest@);
            self.lines.append(&mut rest);
            assert(lines_view(self.lines@) =~= prev2 + rest_now);
            self.cursor_column = last_len + 1;
            proof {
                assert(self.text() =~= insert_pieces(t, l, c, p, common, dest).0);
            }
        }
        proof {
            assert(normalized@ == normalize_breaks(data@));
            crate::buffer::lemma_common_indent_is_shared(p);
            assert(common == (if add_whitespaces { crate::buffer::shared_indent(p) } else { 0 }));
            assert(dest == (if add_whitespaces { leading_ws(t[l - 1]) } else { 0 }));
            lemma_insert_pieces_fit(t, l, c, p, common, dest, normalized@.len());
            lemma_pieces_plain(data@);
            lemma_insert_pieces_plain(t, l, c, p, common, dest);
            let res = insert_pieces(t, l, c, p, common, dest);
            assert(self.text() == res.0);
            assert(self.cursor_line == res.1.0);
            assert(self.cursor_column == res.1.1);
            assert(res == insert_text_result(t, l, c, data@, add_whitespaces));
            assert(self.lines@.len() >= 1);
            assert(lines_fit(self.text()));
            assert(valid_pos(self.text(), self.cursor()));
        }
    }
}

proof fn lemma_normalize_shorter(t: Seq<char>)
    ensures
        normalize_breaks(t).len() <= t.len(),
    decreases t.len(),
{
    if t.len() > 0 {
        if t[0] == '\r' && t.len() > 1 && t[1] == '\n' {
            lemma_normalize_shorter(t.subrange(2, t.len() as int));
        } else {
            lemma_normalize_shorter(t.drop_first());
        }
    }
}

proof fn lemma_normalize_no_cr(t: Seq<char>)
    ensures
        forall|j: int| 0 <= j < normalize_breaks(t).len() ==> #[trigger] normalize_breaks(t)[j] != '\r',
    decreases t.len(),
{
    if t.len() > 0 {
        let rest = if t[0] == '\r' && t.len() > 1 && t[1] == '\n' {
            t.subrange(2, t.len() as int)
        } else {
            t.drop_first()
        };
        lemma_normalize_no_cr(rest);
        let n = normalize_breaks(t);
        assert forall|j: int| 0 <= j < n.len() implies #[trigger] n[j] != '\r' by {
            if j > 0 {
                assert(n[j] == normalize_breaks(rest)[j - 1]);
            }
        }
    }
}

proof fn lemma_split_plain(x: Seq<char>)
    requires
        forall|j: int| 0 <= j < x.len() ==> #[trigger] x[j] != '\r',
    ensures
        no_breaks(split_lines(x)),
    decreases x.len(),
{
    if x.len() > 0 {
        let y = x.drop_last();
        assert forall|j: int| 0 <= j < y.len() implies #[trigger] y[j] != '\r' by {
            assert(y[j] == x[j]);
        }
        lemma_split_plain(y);
        lemma_split_len(y);
        let prev = split_lines(y);
        let r = split_lines(x);
        if x.last() != '\n' {
            lemma_no_breaks_line(prev, prev.len() - 1);
            assert(plain_line(seq![x.last()]));
            lemma_plain_concat(prev.last(), seq![x.last()]);
            assert(prev.last().push(x.last()) =~= prev.last() + seq![x.last()]);
        }
        assert forall|i: int| 0 <= i < r.len() implies #[trigger] plain_line(r[i]) by {
            if i < prev.len() && !(x.last() != '\n' && i == prev.len() - 1) {
                lemma_no_breaks_line(prev, i);
            }
        }
        lemma_no_breaks_intro(r);
    }
}

/// The pieces of normalized text hold no line break.
proof fn lemma_pieces_plain(text: Seq<char>)
    ensures
        no_breaks(split_lines(normalize_breaks(text))),
{
    lemma_normalize_no_cr(text);
    lemma_split_plain(normalize_breaks(text));
}

/// Inserting pieces without line breaks into lines without them gives
/// lines without them.
proof fn lemma_insert_pieces_plain(
    t: Seq<Seq<char>>,
    l: usize,
    c: usize,
    p: Seq<Seq<char>>,
    common: nat,
    dest: nat,
)
    requires
        valid_pos(t, (l, c)),
        p.len() >= 1,
        no_breaks(t),
        no_breaks(p),
    ensures
        no_breaks(insert_pieces(t, l, c, p, common, dest).0),
{
    let nt = insert_pieces(t, l, c, p, common, dest).0;
    let line = t[l - 1];
    lemma_no_breaks_line(t, l - 1);
    let head = line.subrange(0, c - 1);
    let tail = line.subrange(c - 1, line.len() as int);
    lemma_plain_subrange(line, 0, c - 1);
    lemma_plain_subrange(line, c - 1, line.len() as int);
    lemma_no_breaks_line(p, 0);
    lemma_plain_concat(head, p[0]);
    if p.len() == 1 {
        lemma_plain_concat(head + p[0], tail);
        assert forall|i: int| 0 <= i < nt.len() implies #[trigger] plain_line(nt[i]) by {
            if i != l - 1 {
                lemma_no_breaks_line(t, i);
            }
        }
    } else {
        let mid = reflowed_rest(p, common, dest);
        let k = mid.len();
        assert forall|i: int| 0 <= i < k implies #[trigger] plain_line(mid[i]) by {
            let s = p[i + 1];
            lemma_no_breaks_line(p, i + 1);
            if dest >= common {
                lemma_plain_spaces((dest - common) as nat);
                lemma_plain_concat(spaces((dest - common) as nat), s);
            } else if common - dest <= s.len() {
                lemma_plain_subrange(s, common - dest, s.len() as int);
            }
        }
        assert(plain_line(mid[k - 1]));
        lemma_plain_concat(mid[k - 1], tail);
        assert forall|i: int| 0 <= i < nt.len() implies #[trigger] plain_line(nt[i]) by {
            if i < l - 1 {
                assert(nt[i] == t[i]);
                lemma_no_breaks_line(t, i);
            } else if l - 1 < i < l - 1 + k {
                assert(nt[i] == mid[i - l]);
            } else if i == l - 1 + k {
                assert(nt[i] == mid[k - 1] + tail);
            } else if i > l - 1 + k {
                assert(nt[i] == t[i - k]);
                lemma_no_breaks_line(t, i - k);
            }
        }
    }
    lemma_no_breaks_intro(nt);
}

/// Inserting pieces no longer than `n` keeps the lines short enough and
/// leaves the cursor inside the text.
proof fn lemma_insert_pieces_fit(
    t: Seq<Seq<char>>,
    l: usize,
    c: usize,
    p: Seq<Seq<char>>,
    common: nat,
    dest: nat,
    n: nat,
)
    requires
        lines_fit(t),
        valid_pos(t, (l, c)),
        p.len() >= 1,
        forall|i: int| 0 <= i < p.len() ==> #[trigger] p[i].len() <= n,
        dest <= t[l - 1].len(),
        2 * t[l - 1].len() + n < usize::MAX,
    ensures
        ({
            let res = insert_pieces(t, l, c, p, common, dest);
            &&& lines_fit(res.0)
            &&& 1 <= res.1.0 <= res.0.len()
            &&& 1 <= res.1.1 <= res.0[res.1.0 - 1].len() + 1
        }),
{
    let res = insert_pieces(t, l, c, p, common, dest);
    let nt = res.0;
    let line = t[l - 1];
    let tail = line.subrange(c - 1, line.len() as int);
    if p.len() > 1 {
        let mid = reflowed_rest(p, common, dest);
        assert(nt.len() == t.len() + p.len() - 1);
        assert forall|i: int| 0 <= i < nt.len() implies #[trigger] nt[i].len() < usize::MAX by {
            if l - 1 < i < l - 1 + p.len() - 1 {
                assert(nt[i] == mid[i - l]);
                assert(mid[i - l] == reflow_line(p[i - l + 1], common, dest));
            } else if i == l - 1 + p.len() - 1 {
                assert(nt[i] == mid[p.len() - 2] + tail);
                assert(mid[p.len() - 2] == reflow_line(p[p.len() - 1], common, dest));
            } else if i > l - 1 + p.len() - 1 {
                assert(nt[i] == t[i - p.len() + 1]);
            } else if i < l - 1 {
                assert(nt[i] == t[i]);
            }
        }
        assert(mid[p.len() - 2] == reflow_line(p[p.len() - 1], common, dest));
        assert(nt[l - 1 + p.len() - 1] == mid[p.len() - 2] + tail);
    } else {
        assert forall|i: int| 0 <= i < nt.len() implies #[trigger] nt[i].len() < usize::MAX by {
            if i != l - 1 {
                assert(nt[i] == t[i]);
            }
        }
    }
}


/// Taking back an insertion restores the text. Removing the range from
/// where text was inserted to where the cursor ended up gives back exactly
/// the lines from before, with the cursor where it was; inserting the same
/// text there again gives the same lines and cursor as the first time. A
/// paste is committed as the record on top of the undo stack, so the next
/// take-back removes exactly that range.
pub proof fn lemma_paste_then_take_back(
    t: Seq<Seq<char>>,
    l: usize,
    c: usize,
    text: Seq<char>,
    reflow: bool,
    u: crate::undo_redo::UndoView,
    sel: Option<crate::undo_redo::SelView>,
    now: u64,
)
    requires
        lines_fit(t),
        valid_pos(t, (l, c)),
        insert_room(t, l, text),
        t.len() + text.len() < usize::MAX,
    ensures
        ({
            let res = insert_text_result(t, l, c, text, reflow);
            let e = (res.1.0 as usize, res.1.1 as usize);
            &&& crate::ranges::deletable(res.0, (l, c), e)
            &&& crate::buffer::lines_after_delete(res.0, (l, c), e) == t
            &&& first_pos((l, c), e) == (l, c)
            &&& insert_text_result(crate::buffer::lines_after_delete(res.0, (l, c), e), l, c, text, reflow) == res
            &&& crate::undo_redo::undo_stack(recorded(u, ActionView::Paste(text, (l, c), e, sel), now)).last()
                == crate::undo_redo::RecordView::Paste(text, (l, c), e, sel)
        }),
{
    let res = insert_text_result(t, l, c, text, reflow);
    let e = (res.1.0 as usize, res.1.1 as usize);
    let nt = res.0;
    let p = split_lines(normalize_breaks(text));
    let common = if reflow { crate::buffer::shared_indent(p) } else { 0 };
    let dest = if reflow { leading_ws(t[l - 1]) } else { 0 };
    let line = t[l - 1];
    let head = line.subrange(0, c - 1);
    let tail = line.subrange(c - 1, line.len() as int);
    lemma_split_bounds(normalize_breaks(text));
    lemma_normalize_shorter(text);
    crate::text::lemma_leading_ws_bound(t[l - 1]);
    lemma_insert_pieces_fit(t, l, c, p, common, dest, normalize_breaks(text).len());
    assert(res == insert_pieces(t, l, c, p, common, dest));
    if p.len() == 1 {
        assert(nt[l - 1] == head + p[0] + tail);
        assert(e == (l, (c + p[0].len()) as usize));
        assert((head + p[0] + tail).subrange(0, c - 1) =~= head);
        assert((head + p[0] + tail).subrange(c + p[0].len() - 1, (head + p[0] + tail).len() as int) =~= tail);
        assert(head + tail =~= line);
        assert(crate::buffer::lines_after_delete(nt, (l, c), e) =~= t);
    } else {
        let mid = reflowed_rest(p, common, dest);
        let k = mid.len();
        assert(nt[l - 1] == head + p[0]);
        assert(nt[l - 1 + k] == mid[k - 1] + tail);
        assert((head + p[0]).subrange(0, c - 1) =~= head);
        assert((mid[k - 1] + tail).subrange(mid[k - 1].len() as int, (mid[k - 1] + tail).len() as int) =~= tail);
        assert(head + tail =~= line);
        assert(crate::buffer::lines_after_delete(nt, (l, c), e) =~= t);
    }
}

} // verus!
