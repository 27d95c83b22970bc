//! Mapping byte offsets of a source text to (line, column) pairs, for
//! placing highlight spans.
use vstd::prelude::*;
use tree_sitter_highlight::HighlightEvent;

verus! {

#[verifier::external_type_specification]
#[verifier::external_body]
pub struct ExUtf8Error(std::str::Utf8Error);

/// The characters that a byte string decodes to as UTF-8, or `None` where
/// it is not valid UTF-8.
pub open spec fn utf8_decode(b: Seq<u8>) -> Option<Seq<char>> {
    if vstd::utf8::valid_utf8(b) {
        Some(vstd::utf8::decode_utf8(b))
    } else {
        None
    }
}

/// Relies on `std::str::from_utf8`: the bytes as a string where they are
/// valid UTF-8, an error otherwise.
#[verifier::external_body]
fn str_from_utf8(b: &[u8]) -> (r: Result<&str, std::str::Utf8Error>)
    ensures
        r is Ok <==> vstd::utf8::valid_utf8(b@),
        r is Ok ==> r->Ok_0@ == vstd::utf8::decode_utf8(b@),
{
    std::str::from_utf8(b)
}

/// Offsets at which lines start: 0, and one past each `\n`.
pub open spec fn line_starts_of(s: Seq<u8>) -> Seq<usize>
    decreases s.len(),
{
    if s.len() == 0 {
        seq![0usize]
    } else {
        let p = line_starts_of(s.drop_last());
        if s.last() == 10u8 {
            p.push(s.len() as usize)
        } else {
            p
        }
    }
}

/// Whether `lc` is the 0-based line and the column (in characters) of byte
/// offset `pos` of `source`: the line is the last one starting at or before
/// the offset, and the column counts the characters from its start up to
/// the offset.
pub open spec fn at_line_col(source: Seq<u8>, pos: usize, lc: (usize, usize)) -> bool {
    let st = line_starts_of(source);
    &&& lc.0 < st.len()
    &&& st[lc.0 as int] <= pos
    &&& lc.0 + 1 < st.len() ==> st[lc.0 + 1] > pos
    &&& utf8_decode(source.subrange(st[lc.0 as int] as int, pos as int)) is Some
    &&& lc.1 == utf8_decode(source.subrange(st[lc.0 as int] as int, pos as int))->0.len()
}

/// Whether the bytes from the start of the line of offset `pos` up to `pos`
/// are not valid UTF-8.
pub open spec fn undecodable_at(source: Seq<u8>, pos: usize) -> bool {
    let st = line_starts_of(source);
    exists|line: int|
        {
            &&& 0 <= line < st.len()
            &&& st[line] <= pos
            &&& (line + 1 < st.len() ==> st[line + 1] > pos)
            &&& #[trigger] utf8_decode(source.subrange(st[line] as int, pos as int)) is None
        }
}

/// A highlighter event with only the plain values the spans are built from.
pub enum SourceEvent {
    /// Source text up to this byte offset.
    Source(usize),
    /// A highlight with this index into the names opens.
    Start(usize),
    /// The innermost open highlight closes.
    End,
}

/// The spans that close, in the order they close, as (name index, start
/// offset, end offset): each opens at the offset reached when it starts and
/// ends at the offset reached when it ends; an end with nothing open is
/// ignored.
pub open spec fn closed_spans(
    events: Seq<SourceEvent>,
    pos: usize,
    stack: Seq<(usize, usize)>,
) -> Seq<(usize, usize, usize)>
    decreases events.len(),
{
    if events.len() == 0 {
        seq![]
    } else {
        let rest = events.drop_first();
        match events[0] {
            SourceEvent::Source(end) => closed_spans(rest, end, stack),
            SourceEvent::Start(h) => closed_spans(rest, pos, stack.push((h, pos))),
            SourceEvent::End => if stack.len() == 0 {
                closed_spans(rest, pos, stack)
            } else {
                seq![(stack.last().0, stack.last().1, pos)] + closed_spans(
                    rest,
                    pos,
                    stack.drop_last(),
                )
            },
        }
    }
}

/// Every offset an event reports lies within `n` bytes, and every
/// highlight index is below `names`.
pub open spec fn events_in_bounds(events: Seq<SourceEvent>, n: nat, names: nat) -> bool {
    forall|i: int|
        0 <= i < events.len() ==> match #[trigger] events[i] {
            SourceEvent::Source(end) => end <= n,
            SourceEvent::Start(h) => h < names,
            SourceEvent::End => true,
        }
}

/// A color-free highlight span: the highlight's name and where it starts.
pub struct HighlightSpan {
    pub highlight_name: &'static str,
    pub start_line: usize,
    pub start_col: usize,
}

/// A highlight span opening, or the last one closing.
pub enum HighlightType {
    Start(HighlightSpan),
    End,
}

/// The offsets at which the lines of a source text start.
pub struct ByteToLineCol {
    pub line_starts: Vec<usize>,
}

proof fn lemma_line_starts_shape(s: Seq<u8>)
    ensures
        line_starts_of(s).len() >= 1,
        line_starts_of(s)[0] == 0,
        forall|i: int| 0 <= i < line_starts_of(s).len() ==> #[trigger] line_starts_of(s)[i] <= s.len(),
    decreases s.len(),
{
    if s.len() > 0 {
        lemma_line_starts_shape(s.drop_last());
    }
}

impl ByteToLineCol {
    /// The line starts of `source`.
    pub fn new(source: &[u8]) -> (r: Self)
        requires
            source@.len() < usize::MAX,
        ensures
            r.line_starts@ == line_starts_of(source@),
    {
        let mut line_starts: Vec<usize> = Vec::new();
        line_starts.push(0);
        let mut i: usize = 0;
        assert(source@.subrange(0, 0) =~= Seq::<u8>::empty());
        while i < source.len()
            invariant
                i <= source@.len(),
                source@.len() < usize::MAX,
                line_starts@ == line_starts_of(source@.subrange(0, i as int)),
            decreases source.len() - i,
        {
            assert(source@.subrange(0, i + 1).drop_last() =~= source@.subrange(0, i as int));
            if source[i] == 10u8 {
                line_starts.push(i + 1);
            }
            i = i + 1;
        }
        assert(source@.subrange(0, i as int) =~= source@);
        ByteToLineCol { line_starts }
    }

    /// The 0-based line and the column (in characters) of byte offset
    /// `byte_pos`: the line is the last one starting at or before the
    /// offset, and the column counts the characters from the line's start
    /// to the offset. An error where those bytes are not valid UTF-8.
    pub fn byte_to_line_col(&self, byte_pos: usize, source: &[u8]) -> (r: Result<
        (usize, usize),
        std::str::Utf8Error,
    >)
        requires
            self.line_starts@ == line_starts_of(source@),
            byte_pos <= source@.len(),
        ensures
            r is Ok ==> at_line_col(source@, byte_pos, r->Ok_0),
            r is Err ==> undecodable_at(source@, byte_pos),
    {
        proof {
            lemma_line_starts_shape(source@);
        }
        let mut line: usize = 0;
        let n = self.line_starts.len();
        while line < n - 1 && self.line_starts[line + 1] <= byte_pos
            invariant
                n == self.line_starts@.len(),
                line < self.line_starts@.len(),
                self.line_starts@[line as int] <= byte_pos,
            decreases self.line_starts@.len() - line,
        {
            line = line + 1;
        }
        let line_start = self.line_starts[line];
        let line_slice = slice_between(source, line_start, byte_pos);
        match str_from_utf8(line_slice) {
            Ok(line_str) => {
                let col = line_str.unicode_len();
                Ok((line, col))
            },
            Err(e) => {
                proof {
                    let st = self.line_starts@;
                    assert(utf8_decode(source@.subrange(st[line as int] as int, byte_pos as int)) is None);
                    assert(0 <= line < st.len() && st[line as int] <= byte_pos && (line + 1 < st.len() ==> st[line + 1] > byte_pos));
                }
                Err(e)
            },
        }
    }
}

/// The highlight entries for a run of highlighter events: for each span, in
/// the order spans close, its start position with the span and its end
/// position with an end marker, positions being (line, column) pairs. An
/// error where the text before a position on its line is not valid UTF-8.
pub fn collect_highlight_spans(
    events: &Vec<SourceEvent>,
    source: &[u8],
    names: &[&'static str],
) -> (r: Result<Vec<((usize, usize), HighlightType)>, std::str::Utf8Error>)
    requires
        source@.len() < usize::MAX,
        events_in_bounds(events@, source@.len(), names@.len()),
    ensures
        r is Ok ==> entries_for(events@, source@, names@, r->Ok_0@),
        r is Err ==> exists|k: int|
            0 <= k < closed_spans(events@, 0, seq![]).len() && (undecodable_at(
                source@,
                (#[trigger] closed_spans(events@, 0, seq![])[k]).1,
            ) || undecodable_at(source@, closed_spans(events@, 0, seq![])[k].2)),
{
    let conv = ByteToLineCol::new(source);
    let mut out: Vec<((usize, usize), HighlightType)> = Vec::new();
    let mut stack: Vec<(usize, usize)> = Vec::new();
    let mut current_pos: usize = 0;
    let ghost all = closed_spans(events@, 0, seq![]);
    let ghost mut done: Seq<(usize, usize, usize)> = seq![];
    let mut i: usize = 0;
    assert(events@.subrange(0, events@.len() as int) =~= events@);
    while i < events.len()
        invariant
            i <= events@.len(),
            conv.line_starts@ == line_starts_of(source@),
            events_in_bounds(events@, source@.len(), names@.len()),
            current_pos <= source@.len(),
            forall|j: int| 0 <= j < stack@.len() ==> (#[trigger] stack@[j]).0 < names@.len()
                && stack@[j].1 <= source@.len(),
            all == closed_spans(events@, 0, seq![]),
            all == done + closed_spans(
                events@.subrange(i as int, events@.len() as int),
                current_pos,
                stack@,
            ),
            out@.len() == 2 * done.len(),
            forall|k: int| 0 <= k < done.len() ==> (#[trigger] done[k]).0 < names@.len(),
            forall|k: int|
                0 <= k < done.len() ==> {
                    let (h, a, b) = #[trigger] done[k];
                    &&& at_line_col(source@, a, out@[2 * k].0)
                    &&& out@[2 * k].1 matches HighlightType::Start(sp) && sp.highlight_name
                        == names@[h as int] && sp.start_line == out@[2 * k].0.0 && sp.start_col
                        == out@[2 * k].0.1
                    &&& at_line_col(source@, b, out@[2 * k + 1].0)
                    &&& out@[2 * k + 1].1 is End
                },
        decreases events.len() - i,
    {
        let ghost rest = events@.subrange(i as int, events@.len() as int);
        assert(rest.drop_first() =~= events@.subrange(i + 1, events@.len() as int));
        assert(rest[0] == events@[i as int]);
        match &events[i] {
            SourceEvent::Source(end) => {
                current_pos = *end;
            },
            SourceEvent::Start(h) => {
                stack.push((*h, current_pos));
            },
            SourceEvent::End => {
                if stack.len() > 0 {
                    let (highlight_index, start_pos) = stack.pop().unwrap();
                    let ghost span = (highlight_index, start_pos, current_pos);
                    let start = match conv.byte_to_line_col(start_pos, source) {
                        Ok(p) => p,
                        Err(e) => {
                            proof {
                                assert(all[done.len() as int] == span);
                            }
                            return Err(e);
                        },
                    };
                    let end = match conv.byte_to_line_col(current_pos, source) {
                        Ok(p) => p,
                        Err(e) => {
                            proof {
                                assert(all[done.len() as int] == span);
                            }
                            return Err(e);
                        },
                    };
                    let highlight_name = names[highlight_index];
                    let ghost out0 = out@;
                    out.push(
                        (
                            start,
                            HighlightType::Start(
                                HighlightSpan { highlight_name, start_line: start.0, start_col: start.1 },
                            ),
                        ),
                    );
                    out.push((end, HighlightType::End));
                    proof {
                        assert(all[done.len() as int] == span);
                        let d0 = done;
                        done = done.push(span);
                        assert forall|k: int| 0 <= k < d0.len() implies #[trigger] d0[k] == done[k]
                            && out@[2 * k] == out0[2 * k] && out@[2 * k + 1] == out0[2 * k + 1] by {}
                        assert(done[d0.len() as int] == span);
                    }
                }
            },
        }
        i = i + 1;
    }
    proof {
        assert(events@.subrange(i as int, events@.len() as int) =~= Seq::<SourceEvent>::empty());
        assert(done =~= all);
    }
    Ok(out)
}

#[verifier::external_type_specification]
#[verifier::external_body]
pub struct ExHighlighter(tree_sitter_highlight::Highlighter);

#[verifier::external_type_specification]
#[verifier::external_body]
pub struct ExHighlightConfiguration(tree_sitter_highlight::HighlightConfiguration);

#[verifier::external_type_specification]
#[verifier::external_body]
pub struct ExHighlightError(tree_sitter_highlight::Error);

#[verifier::external_type_specification]
#[verifier::external_body]
pub struct ExQueryError(tree_sitter::QueryError);

/// Relies on `Highlighter::new`: a fresh highlighter.
#[verifier::external_body]
fn new_highlighter() -> tree_sitter_highlight::Highlighter {
    tree_sitter_highlight::Highlighter::new()
}

/// Relies on `HighlightConfiguration::new` with tree-sitter-rust's grammar
/// and its highlight and injection queries: the configuration for Rust, or
/// the error of a query that does not compile.
#[verifier::external_body]
fn rust_configuration() -> Result<tree_sitter_highlight::HighlightConfiguration, tree_sitter::QueryError> {
    tree_sitter_highlight::HighlightConfiguration::new(
        tree_sitter_rust::LANGUAGE.into(),
        "rust",
        tree_sitter_rust::HIGHLIGHTS_QUERY,
        tree_sitter_rust::INJECTIONS_QUERY,
        "",
    )
}

/// Relies on `HighlightConfiguration::configure`: the highlights reported
/// afterwards are indices into `names`.
#[verifier::external_body]
fn configure_names(config: &mut tree_sitter_highlight::HighlightConfiguration, names: &[&'static str]) {
    config.configure(names)
}

/// Relies on `Highlighter::highlight`: the events it reports for `source`,
/// each turned into a plain value, or its error.
#[verifier::external_body]
fn highlight_events(
    highlighter: &mut tree_sitter_highlight::Highlighter,
    config: &tree_sitter_highlight::HighlightConfiguration,
    source: &[u8],
) -> Result<Vec<SourceEvent>, tree_sitter_highlight::Error> {
    highlighter.highlight(config, source, None, |_| None)?.map(|event| event.map(|e| match e {
        HighlightEvent::Source { start: _, end } => SourceEvent::Source(end),
        HighlightEvent::HighlightStart(h) => SourceEvent::Start(h.0),
        HighlightEvent::HighlightEnd => SourceEvent::End,
    })).collect()
}

/// Why highlighting failed.
pub enum SyntaxHighlightError {
    /// A query of the grammar did not compile.
    Query,
    /// The highlighter stopped with an error.
    Highlighter,
    /// The highlighter reported an offset past the text or an unknown
    /// highlight.
    OutOfRange,
    /// Text before a highlight boundary on its line is not valid UTF-8.
    Utf8,
}

/// The highlight names this editor recognises, in order.
pub open spec fn highlight_names_view() -> Seq<&'static str> {
    seq![
        "attribute",
        "comment",
        "constant",
        "constant.builtin",
        "constructor",
        "embedded",
        "function",
        "function.builtin",
        "keyword",
        "module",
        "number",
        "operator",
        "property",
        "property.builtin",
        "punctuation",
        "punctuation.bracket",
        "punctuation.delimiter",
        "punctuation.special",
        "string",
        "string.special",
        "tag",
        "type",
        "type.builtin",
        "variable",
        "variable.builtin",
        "variable.parameter",
    ]
}

/// The highlight names this editor recognises.
pub fn highlight_names() -> (r: Vec<&'static str>)
    ensures
        r@ == highlight_names_view(),
{
    let mut r: Vec<&'static str> = Vec::new();
    r.push("attribute");
    r.push("comment");
    r.push("constant");
    r.push("constant.builtin");
    r.push("constructor");
    r.push("embedded");
    r.push("function");
    r.push("function.builtin");
    r.push("keyword");
    r.push("module");
    r.push("number");
    r.push("operator");
    r.push("property");
    r.push("property.builtin");
    r.push("punctuation");
    r.push("punctuation.bracket");
    r.push("punctuation.delimiter");
    r.push("punctuation.special");
    r.push("string");
    r.push("string.special");
    r.push("tag");
    r.push("type");
    r.push("type.builtin");
    r.push("variable");
    r.push("variable.builtin");
    r.push("variable.parameter");
    assert(r@ =~= highlight_names_view());
    r
}

/// Whether every event stays within `n` bytes and below `names` highlights.
pub fn events_within(events: &Vec<SourceEvent>, n: usize, names: usize) -> (r: bool)
    ensures
        r == events_in_bounds(events@, n as nat, names as nat),
{
    let mut i: usize = 0;
    while i < events.len()
        invariant
            i <= events@.len(),
            forall|j: int| 0 <= j < i ==> match #[trigger] events@[j] {
                SourceEvent::Source(end) => end <= n,
                SourceEvent::Start(h) => h < names,
                SourceEvent::End => true,
            },
        decreases events.len() - i,
    {
        let ok = match &events[i] {
            SourceEvent::Source(end) => *end <= n,
            SourceEvent::Start(h) => *h < names,
            SourceEvent::End => true,
        };
        if !ok {
            return false;
        }
        i = i + 1;
    }
    true
}

/// The entries of `v` are the highlight entries of `events` (see
/// `collect_highlight_spans`).
pub open spec fn entries_for(
    events: Seq<SourceEvent>,
    source: Seq<u8>,
    names: Seq<&'static str>,
    v: Seq<((usize, usize), HighlightType)>,
) -> bool {
    let spans = closed_spans(events, 0, seq![]);
    &&& v.len() == 2 * spans.len()
    &&& forall|k: int|
        0 <= k < spans.len() ==> {
            let (h, a, b) = #[trigger] spans[k];
            &&& at_line_col(source, a, v[2 * k].0)
            &&& v[2 * k].1 matches HighlightType::Start(sp) && sp.highlight_name == names[h as int]
                && sp.start_line == v[2 * k].0.0 && sp.start_col == v[2 * k].0.1
            &&& at_line_col(source, b, v[2 * k + 1].0)
            &&& v[2 * k + 1].1 is End
        }
}

/// Highlights Rust source: runs the highlighter with the names of
/// `highlight_names` and turns the spans it reports into positioned
/// entries (see `collect_highlight_spans`). On success the entries are
/// those of some run of events within the text and the names.
pub fn create_syntax_highlighting(source: &[u8]) -> (r: Result<
    Vec<((usize, usize), HighlightType)>,
    SyntaxHighlightError,
>)
    requires
        source@.len() < usize::MAX,
    ensures
        r is Ok ==> exists|events: Seq<SourceEvent>|
            events_in_bounds(events, source@.len(), 26) && #[trigger] entries_for(
                events,
                source@,
                highlight_names_view(),
                r->Ok_0@,
            ),
{
    let names = highlight_names();
    let mut config = match rust_configuration() {
        Ok(c) => c,
        Err(_) => {
            return Err(SyntaxHighlightError::Query);
        },
    };
    configure_names(&mut config, names.as_slice());
    let mut highlighter = new_highlighter();
    let events = match highlight_events(&mut highlighter, &config, source) {
        Ok(e) => e,
        Err(_) => {
            return Err(SyntaxHighlightError::Highlighter);
        },
    };
    if !events_within(&events, source.len(), names.len()) {
        return Err(SyntaxHighlightError::OutOfRange);
    }
    match collect_highlight_spans(&events, source, names.as_slice()) {
        Ok(v) => {
            assert(names@ == highlight_names_view());
            assert(names@.len() == 26);
            assert(events_in_bounds(events@, source@.len(), 26));
            assert(entries_for(events@, source@, highlight_names_view(), v@));
            let r: Result<Vec<((usize, usize), HighlightType)>, SyntaxHighlightError> = Ok(v);
            assert(r->Ok_0@ == v@);
            assert(exists|ev: Seq<SourceEvent>| events_in_bounds(ev, source@.len(), 26) && #[trigger] entries_for(ev, source@, highlight_names_view(), r->Ok_0@));
            r
        },
        Err(_) => Err(SyntaxHighlightError::Utf8),
    }
}

/// The bytes of `s` from `from` up to `to`.
fn slice_between(s: &[u8], from: usize, to: usize) -> (r: &[u8])
    requires
        from <= to <= s@.len(),
    ensures
        r@ == s@.subrange(from as int, to as int),
{
    vstd::slice::slice_subrange(s, from, to)
}

} // verus!
