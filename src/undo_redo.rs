//! The undo/redo engine: a debounced buffer that coalesces runs of typed or
//! removed characters, and the two stacks of committed records.
use vstd::prelude::*;
use crate::buffer::{no_breaks, first_pos, insert_text_result, lines_after_delete, valid_pos};
use crate::clipboard::insert_room;
use crate::ranges::deletable;
use crate::selection::Selection;
use crate::editor::{same_view_and_scroll, UIState};
use crate::text::chars_of;

verus! {

/// Within this many milliseconds of the previous one, an edit of the same
/// kind joins the open run.
pub const MAX_BUFFER_DEBOUNCE_TIME_MS: u64 = 250;

/// A position: 1-based line and column.
pub type Pos = (usize, usize);

/// The view of a removed selection.
pub struct SelView {
    pub text: Seq<char>,
    pub start: Pos,
    pub end: Pos,
}

/// The view of a committed record.
pub enum RecordView {
    Add(Pos, Pos, Seq<char>, Option<SelView>),
    RemoveBack(Seq<char>, Pos, Pos),
    RemoveForward(Seq<char>, Pos, Pos),
    Paste(Seq<char>, Pos, Pos, Option<SelView>),
}

/// The view of the open run: where it started and ends, its characters, the
/// time of its last edit, and the selection it replaced or its key.
pub enum PendingView {
    Add(Pos, Pos, Seq<char>, u64, Option<SelView>),
    Remove(Pos, Pos, Seq<char>, u64, RemoveBufferType),
}

/// The view of an edit report.
pub enum ActionView {
    AddCharacter(char, Pos, Pos, Option<SelView>),
    Paste(Seq<char>, Pos, Pos, Option<SelView>),
    RemoveCharacter(char, Pos, Pos, RemoveBufferType),
}

/// The view of the engine.
pub struct UndoView {
    pub undo: Seq<RecordView>,
    pub redo: Seq<RecordView>,
    pub pending: Option<PendingView>,
}

pub open spec fn sel_view(s: Option<UndoSelection>) -> Option<SelView> {
    match s {
        Some(u) => Some(SelView { text: u.text@, start: u.start, end: u.end }),
        None => None,
    }
}

/// Whether a run whose last edit was at `last` is closed at time `now`: the
/// debounce window has passed, or the clock went back.
pub open spec fn expired(last: u64, now: u64) -> bool {
    now < last || now - last >= MAX_BUFFER_DEBOUNCE_TIME_MS
}

/// The record an open run becomes when it is closed (none without a run).
/// Backspace removes characters from right to left, so its record holds them
/// in reverse.
pub open spec fn committed(p: Option<PendingView>) -> Seq<RecordView> {
    match p {
        None => seq![],
        Some(PendingView::Add(s, e, chars, _, sel)) => seq![RecordView::Add(s, e, chars, sel)],
        Some(PendingView::Remove(s, e, chars, _, kind)) => if kind == RemoveBufferType::Backspace {
            seq![RecordView::RemoveBack(chars.reverse(), s, e)]
        } else {
            seq![RecordView::RemoveForward(chars, s, e)]
        },
    }
}

/// The engine after an edit is reported at time `now`. Every report drops
/// the redo records. A typed character joins an open typing run that
/// replaced no selection for it and has not expired; a removed character
/// joins an open run of the same key that has not expired; otherwise the
/// open run is committed and a new one starts. A paste commits the open run
/// and is committed itself.
pub open spec fn recorded(u: UndoView, a: ActionView, now: u64) -> UndoView {
    match a {
        ActionView::AddCharacter(ch, s, e, sel) => match u.pending {
            Some(PendingView::Add(bs, _, chars, ts, bsel)) if sel is None && !expired(ts, now) => {
                UndoView {
                    undo: u.undo,
                    redo: seq![],
                    pending: Some(PendingView::Add(bs, e, chars.push(ch), now, bsel)),
                }
            },
            _ => UndoView {
                undo: u.undo + committed(u.pending),
                redo: seq![],
                pending: Some(PendingView::Add(s, e, seq![ch], now, sel)),
            },
        },
        ActionView::Paste(d, s, e, sel) => UndoView {
            undo: (u.undo + committed(u.pending)).push(RecordView::Paste(d, s, e, sel)),
            redo: seq![],
            pending: None,
        },
        ActionView::RemoveCharacter(ch, s, e, kind) => match u.pending {
            Some(PendingView::Remove(bs, _, chars, ts, k2)) if k2 == kind && !expired(ts, now) => {
                UndoView {
                    undo: u.undo,
                    redo: seq![],
                    pending: Some(PendingView::Remove(bs, e, chars.push(ch), now, kind)),
                }
            },
            _ => UndoView {
                undo: u.undo + committed(u.pending),
                redo: seq![],
                pending: Some(PendingView::Remove(s, e, seq![ch], now, kind)),
            },
        },
    }
}

/// Text removed by deleting a selection or a range, with the two ends the
/// range was given by.
pub struct UndoSelection {
    pub text: String,
    pub start: (usize, usize),
    pub end: (usize, usize),
}

/// Which key removed characters.
#[derive(Debug, Clone, Copy, PartialEq, Eq, Structural)]
pub enum RemoveBufferType {
    Backspace,
    Delete,
}

/// One edit as reported by the editing operations.
pub enum UndoAction {
    /// A typed character, the cursor before and after it, and the selection
    /// it replaced.
    AddCharacter(char, (usize, usize), (usize, usize), Option<UndoSelection>),
    /// Pasted text, the cursor before and after it, and the selection it
    /// replaced.
    Paste(String, (usize, usize), (usize, usize), Option<UndoSelection>),
    /// A removed character (`'\n'` for a line break), the cursor before and
    /// after, and the key.
    RemoveCharacter(char, (usize, usize), (usize, usize), RemoveBufferType),
}

impl UndoAction {
    pub open spec fn view(&self) -> ActionView {
        match self {
            UndoAction::AddCharacter(ch, s, e, sel) => ActionView::AddCharacter(*ch, *s, *e, sel_view(*sel)),
            UndoAction::Paste(d, s, e, sel) => ActionView::Paste(d@, *s, *e, sel_view(*sel)),
            UndoAction::RemoveCharacter(ch, s, e, k) => ActionView::RemoveCharacter(*ch, *s, *e, *k),
        }
    }
}

struct AddAction {
    start: Pos,
    end: Pos,
    chars: Vec<char>,
    selection: Option<UndoSelection>,
}

struct RemoveBackAction {
    data: Vec<char>,
    start: Pos,
    end: Pos,
}

struct RemoveForwardAction {
    data: Vec<char>,
    start: Pos,
    end: Pos,
}

struct PasteAction {
    data: Vec<char>,
    start: Pos,
    end: Pos,
    selection: Option<UndoSelection>,
}

/// A committed record.
enum Action {
    Add(AddAction),
    RemoveBack(RemoveBackAction),
    RemoveForward(RemoveForwardAction),
    Paste(PasteAction),
}

impl Action {
    spec fn view(&self) -> RecordView {
        match self {
            Action::Add(a) => RecordView::Add(a.start, a.end, a.chars@, sel_view(a.selection)),
            Action::RemoveBack(a) => RecordView::RemoveBack(a.data@, a.start, a.end),
            Action::RemoveForward(a) => RecordView::RemoveForward(a.data@, a.start, a.end),
            Action::Paste(a) => RecordView::Paste(a.data@, a.start, a.end, sel_view(a.selection)),
        }
    }
}

/// An open run of typed characters.
struct AddCharacterBuffer {
    start_position: Pos,
    end_position: Pos,
    chars: Vec<char>,
    last_action_timestamp: u64,
    selection: Option<UndoSelection>,
}

impl AddCharacterBuffer {
    fn new(line_num: usize, line_column: usize, selection: Option<UndoSelection>, now: u64) -> (r: Self)
        ensures
            r.start_position == (line_num, line_column),
            r.end_position == (line_num, line_column),
            r.chars@ == Seq::<char>::empty(),
            r.last_action_timestamp == now,
            r.selection == selection,
    {
        AddCharacterBuffer {
            start_position: (line_num, line_column),
            end_position: (line_num, line_column),
            chars: Vec::new(),
            last_action_timestamp: now,
            selection,
        }
    }

    fn should_commit(&self, now: u64) -> (r: bool)
        ensures
            r == expired(self.last_action_timestamp, now),
    {
        now < self.last_action_timestamp || now - self.last_action_timestamp
            >= MAX_BUFFER_DEBOUNCE_TIME_MS
    }

    fn add_char(&mut self, ch: char, end_line: usize, end_col: usize, now: u64)
        ensures
            final(self).chars@ == old(self).chars@.push(ch),
            final(self).end_position == (end_line, end_col),
            final(self).last_action_timestamp == now,
            final(self).start_position == old(self).start_position,
            final(self).selection == old(self).selection,
    {
        self.chars.push(ch);
        self.end_position = (end_line, end_col);
        self.last_action_timestamp = now;
    }
}

/// An open run of removed characters.
struct RemoveCharacterBuffer {
    start_position: Pos,
    end_position: Pos,
    chars: Vec<char>,
    last_action_timestamp: u64,
    remove_type: RemoveBufferType,
}

impl RemoveCharacterBuffer {
    fn new(line_num: usize, line_column: usize, remove_type: RemoveBufferType, now: u64) -> (r: Self)
        ensures
            r.start_position == (line_num, line_column),
            r.end_position == (line_num, line_column),
            r.chars@ == Seq::<char>::empty(),
            r.last_action_timestamp == now,
            r.remove_type == remove_type,
    {
        RemoveCharacterBuffer {
            start_position: (line_num, line_column),
            end_position: (line_num, line_column),
            chars: Vec::new(),
            last_action_timestamp: now,
            remove_type,
        }
    }

    fn should_commit(&self, now: u64) -> (r: bool)
        ensures
            r == expired(self.last_action_timestamp, now),
    {
        now < self.last_action_timestamp || now - self.last_action_timestamp
            >= MAX_BUFFER_DEBOUNCE_TIME_MS
    }

    fn remove_char(&mut self, ch: char, end_line: usize, end_col: usize, now: u64)
        ensures
            final(self).chars@ == old(self).chars@.push(ch),
            final(self).end_position == (end_line, end_col),
            final(self).last_action_timestamp == now,
            final(self).start_position == old(self).start_position,
            final(self).remove_type == old(self).remove_type,
    {
        self.chars.push(ch);
        self.end_position = (end_line, end_col);
        self.last_action_timestamp = now;
    }
}

/// The open run.
enum Buffer {
    AddCharacter(AddCharacterBuffer),
    RemoveCharacter(RemoveCharacterBuffer),
}

spec fn pending_view(b: Option<Buffer>) -> Option<PendingView> {
    match b {
        None => None,
        Some(Buffer::AddCharacter(a)) => Some(
            PendingView::Add(a.start_position, a.end_position, a.chars@, a.last_action_timestamp, sel_view(a.selection)),
        ),
        Some(Buffer::RemoveCharacter(r)) => Some(
            PendingView::Remove(r.start_position, r.end_position, r.chars@, r.last_action_timestamp, r.remove_type),
        ),
    }
}

/// The undo and redo stacks and the open run.
pub struct UndoRedo {
    undo_actions: Vec<Action>,
    redo_actions: Vec<Action>,
    /// Characters typed or removed one at a time are kept here and committed
    /// as one record once the run ends.
    buffer: Option<Buffer>,
}

#[verifier::external_type_specification]
#[verifier::external_body]
pub struct ExSystemTime(std::time::SystemTime);

/// Relies on `SystemTime::now`: the current wall-clock time. Nothing is
/// promised of it.
#[verifier::external_body]
fn system_now() -> std::time::SystemTime {
    std::time::SystemTime::now()
}

/// Relies on `SystemTime::duration_since(UNIX_EPOCH)`: the milliseconds
/// from the Unix epoch to `t`, 0 for a time before the epoch. Nothing is
/// promised of the value.
#[verifier::external_body]
fn millis_since_epoch(t: &std::time::SystemTime) -> u64 {
    match t.duration_since(std::time::UNIX_EPOCH) {
        Ok(d) => d.as_millis() as u64,
        Err(_) => 0,
    }
}

impl UndoRedo {
    pub closed spec fn view(&self) -> UndoView {
        UndoView {
            undo: self.undo_actions@.map_values(|a: Action| a.view()),
            redo: self.redo_actions@.map_values(|a: Action| a.view()),
            pending: pending_view(self.buffer),
        }
    }

    /// An engine with no records and no open run.
    pub fn new() -> (r: Self)
        ensures
            r.view() == (UndoView { undo: seq![], redo: seq![], pending: None }),
    {
        let r = UndoRedo { undo_actions: Vec::new(), redo_actions: Vec::new(), buffer: None };
        assert(r.view().undo =~= seq![]);
        assert(r.view().redo =~= seq![]);
        r
    }

    /// Reports an edit, timed by the wall clock.
    pub fn add_undo_action(&mut self, action: UndoAction)
        ensures
            exists|now: u64| final(self).view() == recorded(old(self).view(), action.view(), now),
    {
        let now = millis_since_epoch(&system_now());
        self.record_action(action, now);
    }

    /// Reports an edit made at time `now` (milliseconds).
    pub fn record_action(&mut self, action: UndoAction, now: u64)
        ensures
            final(self).view() == recorded(old(self).view(), action.view(), now),
    {
        let ghost u = self.view();
        let ghost a = action.view();
        self.redo_actions.clear();
        match action {
            UndoAction::AddCharacter(ch, (start_line, start_col), (end_line, end_col), removed_selection) => {
                let join = match &self.buffer {
                    Some(Buffer::AddCharacter(b)) => removed_selection.is_none() && !b.should_commit(now),
                    _ => false,
                };
                if join {
                    match &mut self.buffer {
                        Some(Buffer::AddCharacter(b)) => b.add_char(ch, end_line, end_col, now),
                        _ => {},
                    }
                } else {
                    self.commit_buffer();
                    let mut add_buffer = AddCharacterBuffer::new(start_line, start_col, removed_selection, now);
                    add_buffer.add_char(ch, end_line, end_col, now);
                    self.buffer = Some(Buffer::AddCharacter(add_buffer));
                }
            },
            UndoAction::Paste(data, start, end, selection) => {
                self.commit_buffer();
                let chars = chars_of(data.as_str());
                self.undo_actions.push(Action::Paste(PasteAction { data: chars, start, end, selection }));
            },
            UndoAction::RemoveCharacter(ch, (start_line, start_col), (end_line, end_col), remove_type) => {
                let join = match &self.buffer {
                    Some(Buffer::RemoveCharacter(b)) => b.remove_type == remove_type && !b.should_commit(now),
                    _ => false,
                };
                if join {
                    match &mut self.buffer {
                        Some(Buffer::RemoveCharacter(b)) => b.remove_char(ch, end_line, end_col, now),
                        _ => {},
                    }
                } else {
                    self.commit_buffer();
                    let mut remove_buffer = RemoveCharacterBuffer::new(start_line, start_col, remove_type, now);
                    remove_buffer.remove_char(ch, end_line, end_col, now);
                    self.buffer = Some(Buffer::RemoveCharacter(remove_buffer));
                }
            },
        }
        assert(self.view().redo =~= seq![]);
        assert(self.view().undo =~= recorded(u, a, now).undo);
    }

    /// Closes the open run, if any, into a record on the undo stack.
    fn commit_buffer(&mut self)
        ensures
            final(self).view() == (UndoView {
                undo: old(self).view().undo + committed(old(self).view().pending),
                redo: old(self).view().redo,
                pending: None,
            }),
    {
        let ghost u = self.view();
        let buffer = self.buffer.take();
        match buffer {
            None => {},
            Some(Buffer::AddCharacter(b)) => {
                self.undo_actions.push(Action::Add(AddAction {
                    start: b.start_position,
                    end: b.end_position,
                    chars: b.chars,
                    selection: b.selection,
                }));
            },
            Some(Buffer::RemoveCharacter(b)) => {
                match b.remove_type {
                    RemoveBufferType::Backspace => {
                        let data = reversed(&b.chars);
                        self.undo_actions.push(Action::RemoveBack(RemoveBackAction {
                            data,
                            start: b.start_position,
                            end: b.end_position,
                        }));
                    },
                    RemoveBufferType::Delete => {
                        self.undo_actions.push(Action::RemoveForward(RemoveForwardAction {
                            data: b.chars,
                            start: b.start_position,
                            end: b.end_position,
                        }));
                    },
                }
            },
        }
        assert(self.view().undo =~= u.undo + committed(u.pending));
    }
}

/// The record on top of the undo stack once the open run is committed.
pub open spec fn undo_stack(u: UndoView) -> Seq<RecordView> {
    u.undo + committed(u.pending)
}

/// The text after an addition or a paste from `s` to `e` is taken back: the
/// range is removed, then a selection it replaced is typed back in.
pub open spec fn text_after_take_back(
    t: Seq<Seq<char>>,
    s: Pos,
    e: Pos,
    sel: Option<SelView>,
) -> Seq<Seq<char>> {
    let t1 = lines_after_delete(t, s, e);
    let a = first_pos(s, e);
    match sel {
        None => t1,
        Some(v) => insert_text_result(t1, a.0, a.1, v.text, false).0,
    }
}

/// Whether a replaced selection, if any, can be removed again.
pub open spec fn removable(t: Seq<Seq<char>>, sel: Option<SelView>) -> bool {
    match sel {
        None => true,
        Some(v) => deletable(t, v.start, v.end),
    }
}

/// The text once a replaced selection, if any, is removed again.
pub open spec fn text_before_reapply(t: Seq<Seq<char>>, sel: Option<SelView>) -> Seq<Seq<char>> {
    match sel {
        None => t,
        Some(v) => lines_after_delete(t, v.start, v.end),
    }
}

impl UndoRedo {
    /// Takes back the latest record, after committing the open run, and
    /// moves it to the redo stack. An addition or a paste has its range
    /// removed and any selection it replaced typed back in and selected
    /// again; removed characters are typed back in, after a backspace run
    /// from where it ended and after a delete run from where it started,
    /// the cursor then going back to that start. Nothing happens to the
    /// editor when no record is left.
    pub fn undo_action(&mut self, editor_state: &mut UIState)
        requires
            old(editor_state).wf(),
        ensures
            final(editor_state).wf(),
            same_view_and_scroll(*old(editor_state), *final(editor_state)),
            ({
                let st = undo_stack(old(self).view());
                &&& final(self).view().pending is None
                &&& st.len() == 0 ==> final(self).view().undo == st && final(self).view().redo
                    == old(self).view().redo && *final(editor_state) == *old(editor_state)
                &&& st.len() > 0 ==> {
                    &&& final(self).view().undo == st.drop_last()
                    &&& final(self).view().redo.len() == old(self).view().redo.len() + 1
                    &&& final(self).view().redo.drop_last() == old(self).view().redo
                    &&& !(st.last() is RemoveForward) ==> final(self).view().redo.last()
                        == st.last()
                }
            }),
            ({
                let st = undo_stack(old(self).view());
                let t = old(editor_state).text();
                st.len() > 0 ==> match st.last() {
                    RecordView::Add(s, e, _, sel) | RecordView::Paste(_, s, e, sel) => {
                        deletable(t, s, e) ==> {
                            &&& sel is None ==> final(editor_state).text() == lines_after_delete(
                                t,
                                s,
                                e,
                            ) && final(editor_state).cursor() == first_pos(s, e)
                                && final(editor_state).selection is None
                            &&& sel is Some && insert_room(
                                lines_after_delete(t, s, e),
                                first_pos(s, e).0,
                                sel->0.text,
                            ) ==> final(editor_state).text() == text_after_take_back(t, s, e, sel)
                            &&& sel is Some && valid_pos(final(editor_state).text(), sel->0.start)
                                && valid_pos(final(editor_state).text(), sel->0.end) ==> final(
                                editor_state).selection == Some(
                                Selection { start: sel->0.start, end: sel->0.end },
                            ) && final(editor_state).cursor() == sel->0.end
                        }
                    },
                    RecordView::RemoveBack(d, s, e) => {
                        valid_pos(t, e) && insert_room(t, e.0, d) ==> {
                            let res = insert_text_result(t, e.0, e.1, d, false);
                            &&& final(editor_state).text() == res.0
                            &&& final(editor_state).cursor_line == res.1.0
                            &&& final(editor_state).cursor_column == res.1.1
                        }
                    },
                    RecordView::RemoveForward(d, s, e) => {
                        valid_pos(t, s) && insert_room(t, s.0, d) ==> {
                            let res = insert_text_result(t, s.0, s.1, d, false);
                            &&& final(editor_state).text() == res.0
                            &&& final(editor_state).cursor() == s
                            &&& final(self).view().redo.last() == RecordView::RemoveForward(
                                d,
                                s,
                                (res.1.0 as usize, res.1.1 as usize),
                            )
                        }
                    },
                }
            }),
    {
        self.commit_buffer();
        let ghost st = self.view().undo;
        let action = match self.undo_actions.pop() {
            Some(a) => a,
            None => {
                return;
            },
        };
        proof {
            assert(self.view().undo =~= st.drop_last());
        }
        let ghost redo0 = self.view().redo;
        let done = match action {
            Action::Add(a) => {
                remove_range(editor_state, a.start, a.end);
                insert_selection_back(&a.selection, editor_state);
                Action::Add(a)
            },
            Action::Paste(a) => {
                remove_range(editor_state, a.start, a.end);
                insert_selection_back(&a.selection, editor_state);
                Action::Paste(a)
            },
            Action::RemoveBack(a) => {
                place_cursor(editor_state, a.end);
                editor_state.insert_chars(&a.data, false);
                Action::RemoveBack(a)
            },
            Action::RemoveForward(a) => {
                place_cursor(editor_state, a.start);
                editor_state.insert_chars(&a.data, false);
                let end = (editor_state.cursor_line, editor_state.cursor_column);
                place_cursor(editor_state, a.start);
                Action::RemoveForward(RemoveForwardAction { data: a.data, start: a.start, end })
            },
        };
        self.redo_actions.push(done);
        proof {
            assert(self.view().redo =~= redo0.push(done.view()));
            assert(self.view().redo.drop_last() =~= redo0);
        }
    }

    /// Applies the latest taken-back record again and moves it back to the
    /// undo stack: an addition or a paste removes the selection it had
    /// replaced and is typed in again from where it started (a paste with
    /// re-indentation); removed characters are removed again.
    pub fn redo_action(&mut self, editor_state: &mut UIState)
        requires
            old(editor_state).wf(),
        ensures
            final(editor_state).wf(),
            same_view_and_scroll(*old(editor_state), *final(editor_state)),
            ({
                let r = old(self).view().redo;
                &&& r.len() == 0 ==> final(self).view() == old(self).view() && *final(editor_state)
                    == *old(editor_state)
                &&& r.len() > 0 ==> {
                    &&& final(self).view().redo == r.drop_last()
                    &&& final(self).view().undo == old(self).view().undo.push(r.last())
                    &&& final(self).view().pending == old(self).view().pending
                }
            }),
            ({
                let r = old(self).view().redo;
                let t = old(editor_state).text();
                r.len() > 0 ==> match r.last() {
                    RecordView::Add(s, e, d, sel) => {
                        let t1 = text_before_reapply(t, sel);
                        removable(t, sel) && valid_pos(t1, s) && insert_room(t1, s.0, d) ==> {
                            let res = insert_text_result(t1, s.0, s.1, d, false);
                            &&& final(editor_state).text() == res.0
                            &&& final(editor_state).cursor_line == res.1.0
                            &&& final(editor_state).cursor_column == res.1.1
                            &&& final(editor_state).selection is None
                        }
                    },
                    RecordView::Paste(d, s, e, sel) => {
                        let t1 = text_before_reapply(t, sel);
                        removable(t, sel) && valid_pos(t1, s) && insert_room(t1, s.0, d) ==> {
                            let res = insert_text_result(t1, s.0, s.1, d, true);
                            &&& final(editor_state).text() == res.0
                            &&& final(editor_state).cursor_line == res.1.0
                            &&& final(editor_state).cursor_column == res.1.1
                            &&& final(editor_state).selection is None
                        }
                    },
                    RecordView::RemoveBack(_, s, e) | RecordView::RemoveForward(_, s, e) => {
                        deletable(t, s, e) ==> final(editor_state).text() == lines_after_delete(
                            t,
                            s,
                            e,
                        ) && final(editor_state).cursor() == first_pos(s, e)
                            && final(editor_state).selection is None
                    },
                }
            }),
    {
        let ghost r0 = self.view().redo;
        let ghost u0 = self.view().undo;
        let action = match self.redo_actions.pop() {
            Some(a) => a,
            None => {
                return;
            },
        };
        proof {
            assert(self.view().redo =~= r0.drop_last());
        }
        match &action {
            Action::Add(a) => {
                remove_selection(&a.selection, editor_state);
                place_cursor(editor_state, a.start);
                editor_state.insert_chars(&a.chars, false);
            },
            Action::Paste(a) => {
                remove_selection(&a.selection, editor_state);
                place_cursor(editor_state, a.start);
                editor_state.insert_chars(&a.data, true);
            },
            Action::RemoveBack(a) => {
                remove_range(editor_state, a.end, a.start);
            },
            Action::RemoveForward(a) => {
                remove_range(editor_state, a.start, a.end);
            },
        }
        self.undo_actions.push(action);
        proof {
            assert(self.view().undo =~= u0.push(action.view()));
        }
    }
}

/// Removes the text between `s` and `e`, puts the cursor on the earlier end
/// and drops any selection; where the range cannot be removed nothing
/// changes.
fn remove_range(editor_state: &mut UIState, s: Pos, e: Pos)
    requires
        old(editor_state).wf(),
    ensures
        final(editor_state).wf(),
        deletable(old(editor_state).text(), s, e) ==> final(editor_state).text()
            == lines_after_delete(old(editor_state).text(), s, e) && *final(editor_state) == (
        UIState {
            lines: final(editor_state).lines,
            cursor_line: first_pos(s, e).0,
            cursor_column: first_pos(s, e).1,
            selection: None,
            ..*old(editor_state)
        }),
        !deletable(old(editor_state).text(), s, e) ==> *final(editor_state) == *old(editor_state),
{
    if editor_state.delete_range(s, e).is_some() {
        let forward = s.0 < e.0 || (s.0 == e.0 && s.1 <= e.1);
        let a = if forward { s } else { e };
        editor_state.cursor_line = a.0;
        editor_state.cursor_column = a.1;
        editor_state.selection = None;
    }
}

/// Moves the cursor to `p` and drops any selection, where `p` lies inside
/// the text; otherwise nothing changes.
fn place_cursor(editor_state: &mut UIState, p: Pos)
    requires
        old(editor_state).wf(),
    ensures
        final(editor_state).wf(),
        valid_pos(old(editor_state).text(), p) ==> *final(editor_state) == (UIState {
            cursor_line: p.0,
            cursor_column: p.1,
            selection: None,
            ..*old(editor_state)
        }),
        !valid_pos(old(editor_state).text(), p) ==> *final(editor_state) == *old(editor_state),
{
    if editor_state.position_valid(p) {
        editor_state.cursor_line = p.0;
        editor_state.cursor_column = p.1;
        editor_state.selection = None;
    }
}

/// Types a replaced selection back in at the cursor and selects it again.
fn insert_selection_back(selection_option: &Option<UndoSelection>, editor_state: &mut UIState)
    requires
        old(editor_state).wf(),
    ensures
        final(editor_state).wf(),
        same_view_and_scroll(*old(editor_state), *final(editor_state)),
        selection_option is None ==> *final(editor_state) == *old(editor_state),
        selection_option is Some && insert_room(
            old(editor_state).text(),
            old(editor_state).cursor_line,
            selection_option->0.text@,
        ) ==> final(editor_state).text() == insert_text_result(
            old(editor_state).text(),
            old(editor_state).cursor_line,
            old(editor_state).cursor_column,
            selection_option->0.text@,
            false,
        ).0,
        selection_option is Some && valid_pos(final(editor_state).text(), selection_option->0.start)
            && valid_pos(final(editor_state).text(), selection_option->0.end) ==> final(
            editor_state).selection == Some(
            Selection { start: selection_option->0.start, end: selection_option->0.end },
        ) && final(editor_state).cursor() == selection_option->0.end,
{
    match selection_option {
        None => {},
        Some(selection) => {
            let chars = chars_of(selection.text.as_str());
            editor_state.insert_chars(&chars, false);
            editor_state.set_selection(selection.start, selection.end);
        },
    }
}

/// Selects a replaced selection again and removes it.
fn remove_selection(selection_option: &Option<UndoSelection>, editor_state: &mut UIState)
    requires
        old(editor_state).wf(),
    ensures
        final(editor_state).wf(),
        same_view_and_scroll(*old(editor_state), *final(editor_state)),
        selection_option is None ==> *final(editor_state) == *old(editor_state),
        removable(old(editor_state).text(), sel_view(*selection_option)) ==> final(editor_state).text()
            == text_before_reapply(old(editor_state).text(), sel_view(*selection_option)),
{
    match selection_option {
        None => {},
        Some(selection) => {
            editor_state.set_selection(selection.start, selection.end);
            editor_state.delete_selection();
        },
    }
}

/// The characters of `v` in reverse order.
fn reversed(v: &Vec<char>) -> (r: Vec<char>)
    ensures
        r@ == v@.reverse(),
{
    let mut r: Vec<char> = Vec::new();
    let mut i: usize = v.len();
    while i > 0
        invariant
            i <= v@.len(),
            r@ == v@.subrange(i as int, v@.len() as int).reverse(),
        decreases i,
    {
        i = i - 1;
        r.push(v[i]);
        assert(r@ =~= v@.subrange(i as int, v@.len() as int).reverse());
    }
    assert(v@.subrange(0, v@.len() as int) =~= v@);
    r
}


/// Taking back the latest record and applying it again leaves both stacks
/// as they were, when no run was open: the take-back moves the record from
/// the undo stack to the redo stack, and applying it moves it back.
pub proof fn lemma_undo_redo_restores_stacks(u: UndoView, r: RecordView)
    requires
        u.pending is None,
        u.undo.len() > 0,
        u.undo.last() == r,
    ensures
        ({
            let st = undo_stack(u);
            let after_undo = UndoView { undo: st.drop_last(), redo: u.redo.push(r), pending: None };
            let after_redo = UndoView {
                undo: after_undo.undo.push(after_undo.redo.last()),
                redo: after_undo.redo.drop_last(),
                pending: after_undo.pending,
            };
            after_redo == u
        }),
{
    let st = undo_stack(u);
    assert(st =~= u.undo);
    assert(st.drop_last().push(r) =~= u.undo);
    assert(u.redo.push(r).drop_last() =~= u.redo);
}

/// A typed character: the character, the cursor before and after it, and
/// the time in milliseconds.
pub type Keystroke = (char, Pos, Pos, u64);

/// The engine after each keystroke is reported in turn, none replacing a
/// selection.
pub open spec fn typed(u: UndoView, ks: Seq<Keystroke>) -> UndoView
    decreases ks.len(),
{
    if ks.len() == 0 {
        u
    } else {
        let k = ks[0];
        typed(recorded(u, ActionView::AddCharacter(k.0, k.1, k.2, None), k.3), ks.drop_first())
    }
}

/// Each keystroke comes less than the debounce window after the one
/// before, and not earlier.
pub open spec fn within_window(ks: Seq<Keystroke>) -> bool {
    forall|i: int| 0 <= i < ks.len() - 1 ==> !expired(#[trigger] ks[i].3, ks[i + 1].3)
}

/// Whether a keystroke at time `now` starts a new typing run: no typing run
/// is open, or the open one has expired.
pub open spec fn starts_run(u: UndoView, now: u64) -> bool {
    match u.pending {
        Some(PendingView::Add(_, _, _, ts, _)) => expired(ts, now),
        _ => true,
    }
}

/// The characters of the keystrokes.
pub open spec fn typed_chars(ks: Seq<Keystroke>) -> Seq<char> {
    Seq::new(ks.len(), |i: int| ks[i].0)
}

proof fn lemma_run_extends(u: UndoView, ks: Seq<Keystroke>, s: Pos, e: Pos, cs: Seq<char>, ts: u64)
    requires
        u.pending == Some(PendingView::Add(s, e, cs, ts, None)),
        ks.len() >= 1,
        !expired(ts, ks[0].3),
        within_window(ks),
    ensures
        typed(u, ks).undo == u.undo,
        typed(u, ks).pending == Some(
            PendingView::Add(s, ks.last().2, cs + typed_chars(ks), ks.last().3, None),
        ),
    decreases ks.len(),
{
    let k = ks[0];
    let u1 = recorded(u, ActionView::AddCharacter(k.0, k.1, k.2, None), k.3);
    assert(u1.pending == Some(PendingView::Add(s, k.2, cs.push(k.0), k.3, None)));
    let rest = ks.drop_first();
    if rest.len() == 0 {
        assert(typed(u1, rest) == u1);
        assert(cs + typed_chars(ks) =~= cs.push(k.0));
    } else {
        assert(!expired(ks[0].3, ks[1].3));
        assert(within_window(rest)) by {
            assert forall|i: int| 0 <= i < rest.len() - 1 implies !expired(#[trigger] rest[i].3, rest[i + 1].3) by {
                assert(rest[i] == ks[i + 1]);
                assert(rest[i + 1] == ks[i + 2]);
            }
        }
        lemma_run_extends(u1, rest, s, k.2, cs.push(k.0), k.3);
        assert(cs.push(k.0) + typed_chars(rest) =~= cs + typed_chars(ks));
    }
}

/// Characters typed less than the debounce window apart form one run: once
/// the run is committed, the undo stack holds what it held before (with
/// the run that was open before) and one record more, holding every
/// character from where the first was typed to where the last one left
/// the cursor. So a single take-back reverts the whole run.
pub proof fn lemma_typing_run_is_one_record(u: UndoView, ks: Seq<Keystroke>)
    requires
        ks.len() >= 1,
        starts_run(u, ks[0].3),
        within_window(ks),
    ensures
        undo_stack(typed(u, ks)) == undo_stack(u).push(
            RecordView::Add(ks[0].1, ks.last().2, typed_chars(ks), None),
        ),
        typed(u, ks).pending == Some(
            PendingView::Add(ks[0].1, ks.last().2, typed_chars(ks), ks.last().3, None),
        ),
{
    let k = ks[0];
    let u1 = recorded(u, ActionView::AddCharacter(k.0, k.1, k.2, None), k.3);
    assert(u1.undo == undo_stack(u));
    assert(u1.pending == Some(PendingView::Add(k.1, k.2, seq![k.0], k.3, None)));
    let rest = ks.drop_first();
    if rest.len() == 0 {
        assert(typed(u1, rest) == u1);
        assert(typed_chars(ks) =~= seq![k.0]);
    } else {
        assert(!expired(ks[0].3, ks[1].3));
        assert(within_window(rest)) by {
            assert forall|i: int| 0 <= i < rest.len() - 1 implies !expired(#[trigger] rest[i].3, rest[i + 1].3) by {
                assert(rest[i] == ks[i + 1]);
                assert(rest[i + 1] == ks[i + 2]);
            }
        }
        lemma_run_extends(u1, rest, k.1, k.2, seq![k.0], k.3);
        assert(seq![k.0] + typed_chars(rest) =~= typed_chars(ks));
    }
}

proof fn lemma_typed_concat(u: UndoView, a: Seq<Keystroke>, b: Seq<Keystroke>)
    ensures
        typed(u, a + b) == typed(typed(u, a), b),
    decreases a.len(),
{
    if a.len() > 0 {
        let k = a[0];
        let u1 = recorded(u, ActionView::AddCharacter(k.0, k.1, k.2, None), k.3);
        assert((a + b).drop_first() =~= a.drop_first() + b);
        lemma_typed_concat(u1, a.drop_first(), b);
    } else {
        assert(a + b =~= b);
    }
}

/// A pause of at least the debounce window splits typing into two runs,
/// each committed as a record of its own, so each is taken back separately.
pub proof fn lemma_pause_splits_runs(u: UndoView, first: Seq<Keystroke>, second: Seq<Keystroke>)
    requires
        first.len() >= 1,
        second.len() >= 1,
        starts_run(u, first[0].3),
        within_window(first),
        within_window(second),
        expired(first.last().3, second[0].3),
    ensures
        undo_stack(typed(u, first + second)) == undo_stack(u).push(
            RecordView::Add(first[0].1, first.last().2, typed_chars(first), None),
        ).push(RecordView::Add(second[0].1, second.last().2, typed_chars(second), None)),
{
    lemma_typed_concat(u, first, second);
    lemma_typing_run_is_one_record(u, first);
    let u1 = typed(u, first);
    lemma_typing_run_is_one_record(u1, second);
}



proof fn lemma_normalize_plain(x: Seq<char>)
    requires
        forall|j: int| 0 <= j < x.len() ==> #[trigger] x[j] != '\r',
    ensures
        crate::buffer::normalize_breaks(x) == x,
    decreases x.len(),
{
    if x.len() > 0 {
        assert(x[0] != '\r');
        let r = x.drop_first();
        assert forall|j: int| 0 <= j < r.len() implies #[trigger] r[j] != '\r' by {
            assert(r[j] == x[j + 1]);
        }
        lemma_normalize_plain(r);
        assert(seq![x[0]] + r =~= x);
    }
}

proof fn lemma_split_append_plain(x: Seq<char>, y: Seq<char>)
    requires
        forall|j: int| 0 <= j < y.len() ==> #[trigger] y[j] != '\n',
    ensures
        ({
            let p = crate::buffer::split_lines(x);
            crate::buffer::split_lines(x + y) == p.update(p.len() - 1, p.last() + y)
        }),
    decreases y.len(),
{
    crate::clipboard::lemma_split_len(x);
    if y.len() == 0 {
        let p = crate::buffer::split_lines(x);
        assert(x + y =~= x);
        assert(p.update(p.len() - 1, p.last() + y) =~= p);
    } else {
        let y0 = y.drop_last();
        assert forall|j: int| 0 <= j < y0.len() implies #[trigger] y0[j] != '\n' by {
            assert(y0[j] == y[j]);
        }
        lemma_split_append_plain(x, y0);
        assert((x + y).drop_last() =~= x + y0);
        assert((x + y).last() == y.last());
        crate::clipboard::lemma_split_len(x + y0);
        let p = crate::buffer::split_lines(x);
        let pl = p.last();
        assert((pl + y0).push(y.last()) =~= pl + y);
        let prev = p.update(p.len() - 1, pl + y0);
        assert(prev.last() == pl + y0);
        assert(prev.len() == p.len());
        assert(prev.update(prev.len() - 1, prev.last().push(y.last())) =~= p.update(p.len() - 1, pl + y));
    }
}

proof fn lemma_split_join(p: Seq<Seq<char>>)
    requires
        p.len() >= 1,
        no_breaks(p),
    ensures
        crate::buffer::split_lines(crate::buffer::join_lines(p)) == p,
        forall|j: int| 0 <= j < crate::buffer::join_lines(p).len() ==> #[trigger] crate::buffer::join_lines(p)[j] != '\r',
    decreases p.len(),
{
    let last = p.last();
    assert forall|j: int| 0 <= j < last.len() implies #[trigger] last[j] != '\n' && last[j] != '\r' by {
        assert(last[j] == p[p.len() - 1][j]);
    }
    if p.len() == 1 {
        assert(crate::buffer::join_lines(p) == p[0]);
        lemma_split_append_plain(seq![], p[0]);
        assert(seq![] + p[0] =~= p[0]);
        assert(crate::buffer::split_lines(seq![]) == seq![Seq::<char>::empty()]);
        assert(seq![Seq::<char>::empty()].update(0, Seq::<char>::empty() + p[0]) =~= p);
    } else {
        let q = p.drop_last();
        assert(no_breaks(q)) by {
            assert forall|i: int, j: int| 0 <= i < q.len() && 0 <= j < q[i].len() implies #[trigger] q[i][j] != '\n' && q[i][j] != '\r' by {
                assert(q[i] == p[i]);
            }
        }
        lemma_split_join(q);
        let jq = crate::buffer::join_lines(q);
        let x = jq + seq!['\n'];
        assert(x.drop_last() =~= jq);
        assert(crate::buffer::split_lines(x) == crate::buffer::split_lines(jq).push(seq![]));
        lemma_split_append_plain(x, last);
        assert(crate::buffer::join_lines(p) == jq + seq!['\n'] + last);
        assert(q.push(seq![]).update(q.len() as int, Seq::<char>::empty() + last) =~= p);
        let jp = crate::buffer::join_lines(p);
        assert forall|j: int| 0 <= j < jp.len() implies #[trigger] jp[j] != '\r' by {
            if j < jq.len() {
                assert(jp[j] == jq[j]);
            } else if j > jq.len() {
                assert(jp[j] == last[j - jq.len() - 1]);
            }
        }
    }
}

/// Typing back removed text restores the lines: removing the text between
/// two positions and inserting it, unchanged, at the earlier one gives the
/// lines from before, where no line holds a line break.
pub proof fn lemma_reinsert_removed(t: Seq<Seq<char>>, s: Pos, e: Pos)
    requires
        valid_pos(t, s),
        valid_pos(t, e),
        no_breaks(t),
    ensures
        ({
            let a = first_pos(s, e);
            let removed = crate::buffer::join_lines(crate::buffer::range_pieces(t, s, e));
            insert_text_result(lines_after_delete(t, s, e), a.0, a.1, removed, false).0 == t
        }),
{
    let a = first_pos(s, e);
    let b = crate::buffer::last_pos(s, e);
    let pieces = crate::buffer::range_pieces(t, s, e);
    let la = t[a.0 - 1];
    let lb = t[b.0 - 1];
    assert(no_breaks(pieces)) by {
        assert forall|i: int, j: int| 0 <= i < pieces.len() && 0 <= j < pieces[i].len() implies #[trigger] pieces[i][j] != '\n' && pieces[i][j] != '\r' by {
            if a.0 == b.0 {
                assert(pieces[i][j] == la[a.1 - 1 + j]);
            } else if i == 0 {
                assert(pieces[i][j] == la[a.1 - 1 + j]);
            } else if i == pieces.len() - 1 {
                assert(pieces[i][j] == lb[j]);
            } else {
                assert(pieces[i] == t[a.0 + i - 1]);
            }
        }
    }
    lemma_split_join(pieces);
    let removed = crate::buffer::join_lines(pieces);
    lemma_normalize_plain(removed);
    let t1 = lines_after_delete(t, s, e);
    let joined = la.subrange(0, a.1 - 1) + lb.subrange(b.1 - 1, lb.len() as int);
    assert(t1[a.0 - 1] == joined);
    assert(joined.subrange(0, a.1 - 1) =~= la.subrange(0, a.1 - 1));
    assert(joined.subrange(a.1 - 1, joined.len() as int) =~= lb.subrange(b.1 - 1, lb.len() as int));
    let res = crate::buffer::insert_pieces(t1, a.0, a.1, pieces, 0, 0);
    assert(insert_text_result(t1, a.0, a.1, removed, false) == res);
    if a.0 == b.0 {
        assert(la.subrange(0, a.1 - 1) + la.subrange(a.1 - 1, b.1 - 1) + la.subrange(b.1 - 1, la.len() as int) =~= la);
        assert(res.0 =~= t);
    } else {
        let mid = crate::buffer::reflowed_rest(pieces, 0, 0);
        assert forall|i: int| 0 <= i < mid.len() implies #[trigger] mid[i] == pieces[i + 1] by {
            assert(crate::buffer::spaces(0) + pieces[i + 1] =~= pieces[i + 1]);
        }
        assert(la.subrange(0, a.1 - 1) + la.subrange(a.1 - 1, la.len() as int) =~= la);
        assert(lb.subrange(0, b.1 - 1) + lb.subrange(b.1 - 1, lb.len() as int) =~= lb);
        assert(res.0 =~= t);
    }
}

/// Typing over a selection and taking the typing back restores the text
/// and the selection. Typing `ch` with a selection from `s` to `e` removes
/// the selected text and puts `ch` at the earlier end; the record that the
/// typing commits holds the removed text; taking that record back removes
/// `ch`, types the removed text back in, and the text is the one from
/// before, in which both ends of the selection lie, so it is selected
/// again. This holds where no line holds a line break and the joined line
/// has room for the character.
pub proof fn lemma_replace_selection_then_take_back(
    t: Seq<Seq<char>>,
    s: Pos,
    e: Pos,
    ch: char,
    u: UndoView,
    now: u64,
)
    requires
        deletable(t, s, e),
        no_breaks(t),
        lines_after_delete(t, s, e)[first_pos(s, e).0 - 1].len() + 1 < usize::MAX,
    ensures
        ({
            let a = first_pos(s, e);
            let a1 = (a.0, (a.1 + 1) as usize);
            let t1 = lines_after_delete(t, s, e);
            let t2 = t1.update(a.0 - 1, t1[a.0 - 1].insert(a.1 - 1, ch));
            let sel = Some(
                SelView {
                    text: crate::buffer::join_lines(crate::buffer::range_pieces(t, s, e)),
                    start: s,
                    end: e,
                },
            );
            &&& undo_stack(recorded(u, ActionView::AddCharacter(ch, a, a1, sel), now)).last()
                == RecordView::Add(a, a1, seq![ch], sel)
            &&& deletable(t2, a, a1)
            &&& text_after_take_back(t2, a, a1, sel) == t
            &&& valid_pos(t, s) && valid_pos(t, e)
        }),
{
    let a = first_pos(s, e);
    let a1 = (a.0, (a.1 + 1) as usize);
    let t1 = lines_after_delete(t, s, e);
    let line = t1[a.0 - 1];
    let t2 = t1.update(a.0 - 1, line.insert(a.1 - 1, ch));
    let b = crate::buffer::last_pos(s, e);
    assert(t1.len() == t.len() - (b.0 - a.0));
    let l2 = line.insert(a.1 - 1, ch);
    assert(l2.subrange(0, a.1 - 1) + l2.subrange(a.1 as int, l2.len() as int) =~= line);
    assert(lines_after_delete(t2, a, a1) =~= t1);
    lemma_reinsert_removed(t, s, e);
}

} // verus!
