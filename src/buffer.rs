//! The mathematical model of the text buffer: positions, ranges, and what
//! deleting a range or inserting text does to the lines.
use vstd::prelude::*;
use crate::text::leading_ws;

verus! {

/// The lines of a buffer as sequences of characters.
pub open spec fn lines_view(lines: Seq<Vec<char>>) -> Seq<Seq<char>> {
    lines.map_values(|l: Vec<char>| l@)
}

/// A 1-based (line, column) position that lies inside the text; the column
/// may be one past the last character of its line.
pub open spec fn valid_pos(t: Seq<Seq<char>>, p: (usize, usize)) -> bool {
    1 <= p.0 <= t.len() && 1 <= p.1 <= t[p.0 - 1].len() + 1
}

/// Lines short enough that a column one past their end fits in `usize`.
pub open spec fn lines_fit(t: Seq<Seq<char>>) -> bool {
    forall|i: int| 0 <= i < t.len() ==> #[trigger] t[i].len() < usize::MAX
}

/// A line holds no line-break character.
pub open spec fn plain_line(s: Seq<char>) -> bool {
    forall|j: int| 0 <= j < s.len() ==> #[trigger] s[j] != '\n' && s[j] != '\r'
}

/// No line holds a line-break character.
pub open spec fn no_breaks(t: Seq<Seq<char>>) -> bool {
    forall|i: int, j: int|
        0 <= i < t.len() && 0 <= j < t[i].len() ==> #[trigger] t[i][j] != '\n' && t[i][j] != '\r'
}

pub proof fn lemma_no_breaks_intro(t: Seq<Seq<char>>)
    requires
        forall|i: int| 0 <= i < t.len() ==> #[trigger] plain_line(t[i]),
    ensures
        no_breaks(t),
{
    assert forall|i: int, j: int| 0 <= i < t.len() && 0 <= j < t[i].len() implies #[trigger] t[i][j]
        != '\n' && t[i][j] != '\r' by {
        assert(plain_line(t[i]));
    }
}

pub proof fn lemma_no_breaks_line(t: Seq<Seq<char>>, i: int)
    requires
        no_breaks(t),
        0 <= i < t.len(),
    ensures
        plain_line(t[i]),
{
    assert forall|j: int| 0 <= j < t[i].len() implies #[trigger] t[i][j] != '\n' && t[i][j] != '\r' by {}
}

pub proof fn lemma_plain_concat(a: Seq<char>, b: Seq<char>)
    requires
        plain_line(a),
        plain_line(b),
    ensures
        plain_line(a + b),
{
    assert forall|j: int| 0 <= j < (a + b).len() implies #[trigger] (a + b)[j] != '\n' && (a + b)[j]
        != '\r' by {
        if j < a.len() {
            assert((a + b)[j] == a[j]);
        } else {
            assert((a + b)[j] == b[j - a.len()]);
        }
    }
}

pub proof fn lemma_plain_subrange(a: Seq<char>, i: int, k: int)
    requires
        plain_line(a),
        0 <= i <= k <= a.len(),
    ensures
        plain_line(a.subrange(i, k)),
{
    assert forall|j: int| 0 <= j < a.subrange(i, k).len() implies #[trigger] a.subrange(i, k)[j] != '\n'
        && a.subrange(i, k)[j] != '\r' by {
        assert(a.subrange(i, k)[j] == a[i + j]);
    }
}

pub proof fn lemma_plain_spaces(n: nat)
    ensures
        plain_line(spaces(n)),
{
}

pub proof fn lemma_plain_insert(a: Seq<char>, i: int, c: char)
    requires
        plain_line(a),
        0 <= i <= a.len(),
        c != '\n' && c != '\r',
    ensures
        plain_line(a.insert(i, c)),
{
    assert forall|j: int| 0 <= j < a.insert(i, c).len() implies #[trigger] a.insert(i, c)[j] != '\n'
        && a.insert(i, c)[j] != '\r' by {
        if j < i {
            assert(a.insert(i, c)[j] == a[j]);
        } else if j > i {
            assert(a.insert(i, c)[j] == a[j - 1]);
        }
    }
}

pub proof fn lemma_plain_remove(a: Seq<char>, i: int)
    requires
        plain_line(a),
        0 <= i < a.len(),
    ensures
        plain_line(a.remove(i)),
{
    assert forall|j: int| 0 <= j < a.remove(i).len() implies #[trigger] a.remove(i)[j] != '\n'
        && a.remove(i)[j] != '\r' by {
        if j < i {
            assert(a.remove(i)[j] == a[j]);
        } else {
            assert(a.remove(i)[j] == a[j + 1]);
        }
    }
}

/// Document order on positions.
pub open spec fn pos_le(a: (usize, usize), b: (usize, usize)) -> bool {
    a.0 < b.0 || (a.0 == b.0 && a.1 <= b.1)
}

/// The earlier of two positions.
pub open spec fn first_pos(a: (usize, usize), b: (usize, usize)) -> (usize, usize) {
    if pos_le(a, b) {
        a
    } else {
        b
    }
}

/// The later of two positions.
pub open spec fn last_pos(a: (usize, usize), b: (usize, usize)) -> (usize, usize) {
    if pos_le(a, b) {
        b
    } else {
        a
    }
}

/// The lines after removing the text between two positions, in either order.
pub open spec fn lines_after_delete(t: Seq<Seq<char>>, s: (usize, usize), e: (usize, usize)) -> Seq<
    Seq<char>,
> {
    let a = first_pos(s, e);
    let b = last_pos(s, e);
    let la = t[a.0 - 1];
    let lb = t[b.0 - 1];
    let joined = la.subrange(0, a.1 - 1) + lb.subrange(b.1 - 1, lb.len() as int);
    t.subrange(0, a.0 - 1).push(joined) + t.subrange(b.0 as int, t.len() as int)
}

/// The pieces of each line that lie between two positions, top to bottom.
pub open spec fn range_pieces(t: Seq<Seq<char>>, s: (usize, usize), e: (usize, usize)) -> Seq<
    Seq<char>,
> {
    let a = first_pos(s, e);
    let b = last_pos(s, e);
    let la = t[a.0 - 1];
    let lb = t[b.0 - 1];
    if a.0 == b.0 {
        seq![la.subrange(a.1 - 1, b.1 - 1)]
    } else {
        seq![la.subrange(a.1 - 1, la.len() as int)] + t.subrange(a.0 as int, b.0 - 1) + seq![
            lb.subrange(0, b.1 - 1),
        ]
    }
}

/// Pieces of text joined with line breaks between them.
pub open spec fn join_lines(p: Seq<Seq<char>>) -> Seq<char>
    decreases p.len(),
{
    if p.len() == 0 {
        seq![]
    } else if p.len() == 1 {
        p[0]
    } else {
        join_lines(p.drop_last()) + seq!['\n'] + p.last()
    }
}

/// Text split at each line break; there is always at least one piece.
pub open spec fn split_lines(text: Seq<char>) -> Seq<Seq<char>>
    decreases text.len(),
{
    if text.len() == 0 {
        seq![seq![]]
    } else {
        let prev = split_lines(text.drop_last());
        if text.last() == '\n' {
            prev.push(seq![])
        } else {
            prev.update(prev.len() - 1, prev.last().push(text.last()))
        }
    }
}

/// `\r\n` and lone `\r` turned into `\n`.
pub open spec fn normalize_breaks(t: Seq<char>) -> Seq<char>
    decreases t.len(),
{
    if t.len() == 0 {
        seq![]
    } else if t[0] == '\r' {
        if t.len() > 1 && t[1] == '\n' {
            seq!['\n'] + normalize_breaks(t.subrange(2, t.len() as int))
        } else {
            seq!['\n'] + normalize_breaks(t.drop_first())
        }
    } else {
        seq![t[0]] + normalize_breaks(t.drop_first())
    }
}

/// `n` spaces.
pub open spec fn spaces(n: nat) -> Seq<char> {
    Seq::new(n, |i: int| ' ')
}

/// A continuation line of a multi-line insertion re-indented from a common
/// width `common` to the destination's width `dest`.
pub open spec fn reflow_line(s: Seq<char>, common: nat, dest: nat) -> Seq<char> {
    if dest >= common {
        spaces((dest - common) as nat) + s
    } else if common - dest <= s.len() {
        s.subrange(common - dest, s.len() as int)
    } else {
        seq![]
    }
}

/// The common indentation of pasted lines: empty lines are skipped, a first
/// line (index 0) with indentation fixes the width outright, any later line
/// without indentation makes it zero, and otherwise the smallest width wins.
pub open spec fn common_indent(data: Seq<(usize, Seq<char>)>) -> nat
    decreases data.len(),
{
    common_indent_from(data, 0)
}

/// `common_indent` of the entries still to be read, `acc` being the width
/// found so far (zero when none was).
pub open spec fn common_indent_from(data: Seq<(usize, Seq<char>)>, acc: nat) -> nat
    decreases data.len(),
{
    if data.len() == 0 {
        acc
    } else {
        let (i, line) = data[0];
        let rest = data.drop_first();
        if line.len() == 0 {
            common_indent_from(rest, acc)
        } else {
            let w = leading_ws(line);
            if i == 0 {
                if w != 0 {
                    w
                } else {
                    common_indent_from(rest, 0)
                }
            } else if w == 0 {
                0
            } else if acc == 0 || w < acc {
                common_indent_from(rest, w)
            } else {
                common_indent_from(rest, acc)
            }
        }
    }
}

/// The smallest indentation among the non-empty lines of `ps`, if any.
pub open spec fn smallest_indent(ps: Seq<Seq<char>>) -> Option<nat>
    decreases ps.len(),
{
    if ps.len() == 0 {
        None
    } else {
        let r = smallest_indent(ps.drop_first());
        if ps[0].len() == 0 {
            r
        } else {
            let w = leading_ws(ps[0]);
            match r {
                None => Some(w),
                Some(m) => Some(if w <= m { w } else { m }),
            }
        }
    }
}

/// The indentation that pasted pieces share: the first piece's own
/// indentation when it is non-empty and indented, otherwise the smallest
/// indentation of the later non-empty pieces, 0 when there are none (an
/// unindented later piece makes it 0).
pub open spec fn shared_indent(p: Seq<Seq<char>>) -> nat {
    if p.len() == 0 {
        0
    } else if p[0].len() > 0 && leading_ws(p[0]) != 0 {
        leading_ws(p[0])
    } else {
        match smallest_indent(p.drop_first()) {
            Some(m) => m,
            None => 0,
        }
    }
}

/// `acc` (0 when unset) combined with the smallest indentation found later.
pub open spec fn with_smallest(acc: nat, m: Option<nat>) -> nat {
    match m {
        None => acc,
        Some(x) => if acc == 0 || x <= acc { x } else { acc },
    }
}

proof fn lemma_fold_is_smallest(d: Seq<(usize, Seq<char>)>, acc: nat)
    requires
        forall|k: int| 0 <= k < d.len() ==> (#[trigger] d[k]).0 != 0,
    ensures
        common_indent_from(d, acc) == with_smallest(acc, smallest_indent(d.map_values(|e: (usize, Seq<char>)| e.1))),
    decreases d.len(),
{
    let ps = d.map_values(|e: (usize, Seq<char>)| e.1);
    if d.len() > 0 {
        let rest = d.drop_first();
        assert(ps.drop_first() =~= rest.map_values(|e: (usize, Seq<char>)| e.1));
        assert(d[0].0 != 0);
        let line = d[0].1;
        let w = leading_ws(line);
        if line.len() == 0 {
            lemma_fold_is_smallest(rest, acc);
        } else if w == 0 {
        } else if acc == 0 || w < acc {
            lemma_fold_is_smallest(rest, w);
        } else {
            lemma_fold_is_smallest(rest, acc);
        }
    }
}

/// The common indentation of numbered pieces is the shared indentation of
/// the pieces.
pub proof fn lemma_common_indent_is_shared(p: Seq<Seq<char>>)
    requires
        p.len() <= usize::MAX,
    ensures
        common_indent(numbered(p)) == shared_indent(p),
{
    let d = numbered(p);
    if p.len() > 0 {
        let rest = d.drop_first();
        assert forall|k: int| 0 <= k < rest.len() implies (#[trigger] rest[k]).0 != 0 by {
            assert(rest[k] == d[k + 1]);
        }
        assert(rest.map_values(|e: (usize, Seq<char>)| e.1) =~= p.drop_first());
        assert(d[0] == (0usize, p[0]));
        lemma_fold_is_smallest(rest, 0);
        assert(common_indent(d) == common_indent_from(d, 0));
        if p[0].len() == 0 || leading_ws(p[0]) == 0 {
            assert(common_indent_from(d, 0) == common_indent_from(rest, 0));
        } else {
            assert(common_indent_from(d, 0) == leading_ws(p[0]));
        }
    } else {
        assert(common_indent(d) == common_indent_from(d, 0));
    }
}

/// The pieces of a split text numbered from zero.
pub open spec fn numbered(p: Seq<Seq<char>>) -> Seq<(usize, Seq<char>)> {
    Seq::new(p.len(), |i: int| (i as usize, p[i]))
}

/// The continuation lines (all pieces but the first) as they are inserted.
pub open spec fn reflowed_rest(p: Seq<Seq<char>>, common: nat, dest: nat) -> Seq<Seq<char>> {
    Seq::new((p.len() - 1) as nat, |i: int| reflow_line(p[i + 1], common, dest))
}

/// The lines and the cursor after inserting the pieces `p` at the cursor
/// `(l, c)`, re-indenting continuation lines from `common` to `dest`.
pub open spec fn insert_pieces(
    t: Seq<Seq<char>>,
    l: usize,
    c: usize,
    p: Seq<Seq<char>>,
    common: nat,
    dest: nat,
) -> (Seq<Seq<char>>, (int, int)) {
    let line = t[l - 1];
    let head = line.subrange(0, c - 1);
    let tail = line.subrange(c - 1, line.len() as int);
    if p.len() == 1 {
        (t.update(l - 1, head + p[0] + tail), (l as int, c + p[0].len() as int))
    } else {
        let mid = reflowed_rest(p, common, dest);
        let k = mid.len();
        (
            t.subrange(0, l - 1).push(head + p[0]) + mid.subrange(0, k - 1).push(mid[k - 1] + tail)
                + t.subrange(l as int, t.len() as int),
            (l + k, mid[k - 1].len() + 1int),
        )
    }
}

/// The lines and cursor after inserting `text` at `(l, c)`, with or without
/// re-indenting the continuation lines to the destination line.
pub open spec fn insert_text_result(
    t: Seq<Seq<char>>,
    l: usize,
    c: usize,
    text: Seq<char>,
    reflow: bool,
) -> (Seq<Seq<char>>, (int, int)) {
    let p = split_lines(normalize_breaks(text));
    let common = if reflow {
        shared_indent(p)
    } else {
        0
    };
    let dest = if reflow {
        leading_ws(t[l - 1])
    } else {
        0
    };
    insert_pieces(t, l, c, p, common, dest)
}

} // verus!
