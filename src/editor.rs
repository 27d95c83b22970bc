//! The editor state: lines, cursor, viewport and selection, with cursor
//! navigation and the selection queries.
use vstd::prelude::*;
use crate::buffer::{lines_fit, lines_view, no_breaks, valid_pos};
use crate::selection::{classify, range_of, char_in, Selection, SelectionType};
use crate::text::{is_white_space, leading_ws, white_space};

verus! {

/// The state of an open buffer.
pub struct UIState {
    pub cursor_line: usize,
    pub cursor_column: usize,
    pub lines: Vec<Vec<char>>,
    /// Horizontal offset of the editor on the screen.
    pub editor_offset_x: usize,
    /// Vertical offset of the editor on the screen.
    pub editor_offset_y: usize,
    /// Number of lines the viewport shows.
    pub editor_lines_num: usize,
    pub editor_scroll_offset: usize,
    /// Set once the viewport geometry is known; navigation waits for it.
    pub should_show_cursor: bool,
    /// Width of the line-number gutter.
    pub prefix_len: usize,
    /// The column that consecutive vertical moves aim for; 0 when unset.
    pub vertical_offset_target: usize,
    pub selection: Option<Selection>,
}

/// The viewport scroll offset after the cursor moved to `line`: the least
/// change that brings the line into view.
pub open spec fn scrolled(scroll: usize, visible: usize, line: usize) -> usize {
    if line < scroll + 1 {
        (line - 1) as usize
    } else if line > scroll + visible {
        (line - visible) as usize
    } else {
        scroll
    }
}

/// The selection when a navigation key is pressed at `from`: kept or started
/// with shift held, dropped without.
pub open spec fn selection_started(old: Option<Selection>, from: (usize, usize), shift: bool) -> Option<
    Selection,
> {
    if shift {
        if old is None {
            Some(Selection { start: from, end: from })
        } else {
            old
        }
    } else {
        None
    }
}

/// The selection once the cursor reached `to`: its active end follows the
/// cursor, and it disappears when the cursor is back on the anchor.
pub open spec fn selection_adjusted(sel: Option<Selection>, to: (usize, usize)) -> Option<Selection> {
    match sel {
        Some(s) => if s.start == to {
            None
        } else {
            Some(Selection { start: s.start, end: to })
        },
        None => None,
    }
}

/// Two states agree on the viewport and the gutter.
pub open spec fn same_view(a: UIState, b: UIState) -> bool {
    &&& a.editor_offset_x == b.editor_offset_x
    &&& a.editor_offset_y == b.editor_offset_y
    &&& a.editor_lines_num == b.editor_lines_num
    &&& a.should_show_cursor == b.should_show_cursor
    &&& a.prefix_len == b.prefix_len
}

/// Two states agree on the viewport, the gutter, the scroll offset and
/// the column memory.
pub open spec fn same_view_and_scroll(a: UIState, b: UIState) -> bool {
    &&& same_view(a, b)
    &&& a.editor_scroll_offset == b.editor_scroll_offset
    &&& a.vertical_offset_target == b.vertical_offset_target
}

/// Number of decimal digits of `n`.
pub open spec fn decimal_digits(n: nat) -> nat
    decreases n,
{
    if n < 10 {
        1
    } else {
        1 + decimal_digits(n / 10)
    }
}

impl UIState {
    /// The lines as sequences of characters.
    pub open spec fn text(&self) -> Seq<Seq<char>> {
        lines_view(self.lines@)
    }

    pub open spec fn cursor(&self) -> (usize, usize) {
        (self.cursor_line, self.cursor_column)
    }

    /// The length of line `l` (1-based).
    pub open spec fn len_of(&self, l: usize) -> nat {
        self.text()[l - 1].len()
    }

    /// At least one line, no line holding a line break, the cursor and both
    /// ends of a selection inside the text, and every line short enough for
    /// its end column to fit.
    pub open spec fn wf(&self) -> bool {
        &&& self.lines@.len() >= 1
        &&& lines_fit(self.text())
        &&& no_breaks(self.text())
        &&& valid_pos(self.text(), self.cursor())
        &&& self.selection is Some ==> valid_pos(self.text(), self.selection->0.start)
            && valid_pos(self.text(), self.selection->0.end)
    }

    /// A state over `lines` with the cursor at the start and no viewport yet;
    /// an empty list of lines becomes one empty line. `prefix_len` is the
    /// number of digits of the largest line number.
    pub fn new(prefix_len: usize, lines: Vec<Vec<char>>) -> (r: Self)
        requires
            prefix_len <= usize::MAX - 2,
            lines_fit(lines_view(lines@)),
            no_breaks(lines_view(lines@)),
        ensures
            r.wf(),
            lines@.len() > 0 ==> r.text() == lines_view(lines@),
            lines@.len() == 0 ==> r.text() == seq![Seq::<char>::empty()],
            r.cursor() == (1usize, 1usize),
            r.prefix_len == prefix_len + 2,
            r.editor_scroll_offset == 0,
            r.editor_offset_x == 0,
            r.editor_offset_y == 0,
            r.editor_lines_num == 1000,
            !r.should_show_cursor,
            r.vertical_offset_target == 0,
            r.selection is None,
    {
        let mut lines = lines;
        if lines.len() == 0 {
            lines.push(Vec::new());
            assert(lines_view(lines@) =~= seq![Seq::<char>::empty()]);
        }
        UIState {
            cursor_line: 1,
            cursor_column: 1,
            lines,
            editor_offset_x: 0,
            editor_offset_y: 0,
            editor_lines_num: 1000,
            editor_scroll_offset: 0,
            should_show_cursor: false,
            prefix_len: prefix_len + 2,
            vertical_offset_target: 0,
            selection: None,
        }
    }

    /// A state over `lines` whose gutter fits the largest line number.
    pub fn with_lines(lines: Vec<Vec<char>>) -> (r: Self)
        requires
            lines_fit(lines_view(lines@)),
            no_breaks(lines_view(lines@)),
        ensures
            r.wf(),
            lines@.len() > 0 ==> r.text() == lines_view(lines@),
            r.prefix_len == decimal_digits(lines@.len() as nat) + 2,
            r.cursor() == (1usize, 1usize),
            r.selection is None,
            !r.should_show_cursor,
            r.vertical_offset_target == 0,
            r.editor_scroll_offset == 0,
    {
        let digits = count_digits(lines.len());
        proof {
            reveal_with_fuel(pow10, 21);
        assert(pow10(20) == 100000000000000000000nat);
            lemma_digits_bound(lines@.len() as nat, 20);
        }
        UIState::new(digits, lines)
    }

    /// Records the viewport geometry the first time it is known: origin and
    /// total height including a border line above and below.
    pub fn set_editor_offset(&mut self, x: usize, y: usize, height: usize)
        requires
            old(self).should_show_cursor || height >= 2,
        ensures
            old(self).should_show_cursor ==> *final(self) == *old(self),
            !old(self).should_show_cursor ==> *final(self) == (UIState {
                editor_offset_x: x,
                editor_offset_y: y,
                editor_lines_num: (height - 2) as usize,
                should_show_cursor: true,
                ..*old(self)
            }),
    {
        if !self.should_show_cursor {
            self.editor_offset_x = x;
            self.editor_offset_y = y;
            self.editor_lines_num = height - 2;
            self.should_show_cursor = true;
        }
    }

    /// Where the cursor stands on the screen, once the viewport is known:
    /// its column past the gutter and the editor's left edge, and its line
    /// below the editor's top edge less the scroll offset. `None` before the
    /// viewport is known, when the cursor is scrolled above it, or when the
    /// sum does not fit.
    pub fn cursor_screen_position(&self) -> (r: Option<(usize, usize)>)
        ensures
            r is Some <==> (self.should_show_cursor && self.cursor_column + self.editor_offset_x
                + self.prefix_len <= usize::MAX && self.cursor_line + self.editor_offset_y
                <= usize::MAX && self.cursor_line + self.editor_offset_y
                >= self.editor_scroll_offset),
            r is Some ==> r->0 == (
                (self.cursor_column + self.editor_offset_x + self.prefix_len) as usize,
                (self.cursor_line + self.editor_offset_y - self.editor_scroll_offset) as usize,
            ),
    {
        if !self.should_show_cursor {
            return None;
        }
        if self.editor_offset_x > usize::MAX - self.cursor_column {
            return None;
        }
        let x0 = self.cursor_column + self.editor_offset_x;
        if self.prefix_len > usize::MAX - x0 {
            return None;
        }
        if self.editor_offset_y > usize::MAX - self.cursor_line {
            return None;
        }
        let y0 = self.cursor_line + self.editor_offset_y;
        if y0 < self.editor_scroll_offset {
            return None;
        }
        Some((x0 + self.prefix_len, y0 - self.editor_scroll_offset))
    }

    /// Number of whitespace characters at the start of `line`.
    pub fn calculate_whitespace_num(line: &[char]) -> (r: usize)
        ensures
            r == leading_ws(line@),
    {
        let mut i: usize = 0;
        assert(line@.subrange(0, line@.len() as int) =~= line@);
        while i < line.len() && white_space(line[i])
            invariant
                i <= line@.len(),
                forall|k: int| 0 <= k < i ==> is_white_space(#[trigger] line@[k]),
                leading_ws(line@) == i + leading_ws(line@.subrange(i as int, line@.len() as int)),
            decreases line.len() - i,
        {
            proof {
                let rest = line@.subrange(i as int, line@.len() as int);
                assert(rest.drop_first() =~= line@.subrange(i + 1, line@.len() as int));
            }
            i = i + 1;
        }
        proof {
            let rest = line@.subrange(i as int, line@.len() as int);
            if i < line.len() {
                assert(rest[0] == line@[i as int]);
            }
        }
        i
    }

    /// Length of the line at 0-based `index`, 0 past the last line.
    pub fn get_line_len(&self, index: usize) -> (r: usize)
        ensures
            index < self.lines@.len() ==> r == self.lines@[index as int]@.len(),
            index >= self.lines@.len() ==> r == 0,
    {
        if index < self.lines.len() {
            self.lines[index].len()
        } else {
            0
        }
    }

    /// Scrolls the viewport by the least amount that shows the cursor line.
    pub fn handle_cursor_scrolling(&mut self)
        requires
            old(self).cursor_line >= 1,
        ensures
            *final(self) == (UIState {
                editor_scroll_offset: scrolled(
                    old(self).editor_scroll_offset,
                    old(self).editor_lines_num,
                    old(self).cursor_line,
                ),
                ..*old(self)
            }),
    {
        if self.cursor_line <= self.editor_scroll_offset {
            self.editor_scroll_offset = self.cursor_line - 1;
        } else if self.cursor_line - self.editor_scroll_offset > self.editor_lines_num {
            self.editor_scroll_offset = self.cursor_line - self.editor_lines_num;
        }
    }

    /// Starts a selection at the cursor when shift is held and none exists,
    /// and drops the selection when shift is not held.
    pub fn start_selection(&mut self, shift: bool)
        ensures
            *final(self) == (UIState {
                selection: selection_started(old(self).selection, old(self).cursor(), shift),
                ..*old(self)
            }),
    {
        if shift {
            if self.selection.is_none() {
                self.selection = Some(Selection::new(self.cursor_line, self.cursor_column));
            }
        } else {
            self.selection = None;
        }
    }

    /// Moves the active end of an existing selection to the cursor, or drops
    /// the selection when the cursor is back on its anchor.
    pub fn adjust_selection(&mut self)
        ensures
            *final(self) == (UIState {
                selection: selection_adjusted(old(self).selection, old(self).cursor()),
                ..*old(self)
            }),
    {
        if let Some(selection) = self.selection {
            if selection.start.0 == self.cursor_line && selection.start.1 == self.cursor_column {
                self.selection = None;
            } else {
                let mut s = selection;
                s.set_end(self.cursor_line, self.cursor_column);
                self.selection = Some(s);
            }
        }
    }

    /// Whether the character at (`line`, `column`) is selected.
    pub fn is_char_selected(&self, line: usize, column: usize) -> (r: bool)
        ensures
            r == (self.selection is Some && char_in(
                classify(self.selection->0.start, self.selection->0.end, line),
                column,
            )),
    {
        match &self.selection {
            Some(selection) => selection.is_char_selected(line, column),
            None => false,
        }
    }

    /// Whether there is a selection.
    pub fn has_any_selection(&self) -> (r: bool)
        ensures
            r == self.selection is Some,
    {
        self.selection.is_some()
    }

    /// Whether line `line` (1-based) is selected in full.
    pub fn is_entire_line_selected(&self, line: usize) -> (r: bool)
        ensures
            r == (self.selection is Some && classify(
                self.selection->0.start,
                self.selection->0.end,
                line,
            ) == Some(SelectionType::Line)),
    {
        match &self.selection {
            Some(selection) => selection.is_line_selected(line),
            None => false,
        }
    }

    /// The column bounds of a partly selected line (1-based); see
    /// `Selection::get_selection_range`.
    pub fn get_selection_range(&self, line: usize) -> (r: Option<(usize, usize)>)
        ensures
            self.selection is None ==> r is None,
            self.selection is Some ==> r == range_of(
                classify(self.selection->0.start, self.selection->0.end, line),
            ),
    {
        match &self.selection {
            Some(selection) => selection.get_selection_range(line),
            None => None,
        }
    }

    /// The classification of a line (1-based) under the current selection.
    pub fn selection_type(&self, line: usize) -> (r: Option<SelectionType>)
        ensures
            self.selection is None ==> r is None,
            self.selection is Some ==> r == classify(
                self.selection->0.start,
                self.selection->0.end,
                line,
            ),
    {
        match &self.selection {
            Some(selection) => selection.line_type(line),
            None => None,
        }
    }
}

pub open spec fn pow10(k: nat) -> nat
    decreases k,
{
    if k == 0 {
        1
    } else {
        10 * pow10((k - 1) as nat)
    }
}

proof fn lemma_digits_bound(n: nat, k: nat)
    requires
        n < pow10(k),
        k >= 1,
    ensures
        decimal_digits(n) <= k,
    decreases k,
{
    if n >= 10 {
        if k == 1 {
            reveal_with_fuel(pow10, 2);
        } else {
            lemma_digits_bound(n / 10, (k - 1) as nat);
        }
    }
}

/// Number of decimal digits of `n`.
pub fn count_digits(n: usize) -> (r: usize)
    ensures
        r == decimal_digits(n as nat),
{
    let mut m: usize = n;
    let mut d: usize = 1;
    proof {
        reveal_with_fuel(pow10, 21);
        assert(pow10(20) == 100000000000000000000nat);
        lemma_digits_bound(n as nat, 20);
    }
    while m >= 10
        invariant
            1 <= d,
            d + decimal_digits(m as nat) == decimal_digits(n as nat) + 1,
            decimal_digits(n as nat) <= 20,
        decreases m,
    {
        m = m / 10;
        d = d + 1;
    }
    d
}

} // verus!
