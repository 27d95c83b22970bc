use love_editor::editing::Config;
use love_editor::editor::UIState;
use love_editor::file_tree::FileTreeEntry;
use love_editor::highlight::{
    collect_highlight_spans, create_syntax_highlighting, highlight_names, ByteToLineCol,
    HighlightType, SourceEvent,
};
use love_editor::undo_redo::{UndoAction, UndoRedo};

fn chars(s: &str) -> Vec<char> {
    s.chars().collect()
}

fn sample() -> UIState {
    let lines = vec![chars("Hello world!"), vec![], chars("Description")];
    let mut ui_state = UIState::new(5, lines);
    ui_state.set_editor_offset(30, 0, 50);
    ui_state
}

fn text_of(ui_state: &UIState) -> Vec<String> {
    ui_state.lines.iter().map(|l| l.iter().collect()).collect()
}

#[test]
fn boundary_moves_and_removals_do_nothing() {
    let mut undo_redo = UndoRedo::new();
    let mut ui_state = sample();
    let before = text_of(&ui_state);
    ui_state.cursor_move_left(false);
    assert_eq!((ui_state.cursor_line, ui_state.cursor_column), (1, 1));
    ui_state.remove_previous_character(&mut undo_redo);
    assert_eq!(text_of(&ui_state), before);
    assert_eq!((ui_state.cursor_line, ui_state.cursor_column), (1, 1));

    ui_state.cursor_move_down(false);
    ui_state.cursor_move_down(false);
    ui_state.cursor_move_line_end(false);
    assert_eq!((ui_state.cursor_line, ui_state.cursor_column), (3, 12));
    ui_state.cursor_move_right(false);
    assert_eq!((ui_state.cursor_line, ui_state.cursor_column), (3, 12));
    ui_state.remove_next_character(&mut undo_redo);
    assert_eq!(text_of(&ui_state), before);
    assert_eq!((ui_state.cursor_line, ui_state.cursor_column), (3, 12));
}

#[test]
fn insert_text_single_piece_advances_cursor() {
    let mut ui_state = sample();
    for _ in 0..6 {
        ui_state.cursor_move_right(false);
    }
    ui_state.insert_text("Planet ".to_string(), false);
    assert_eq!(text_of(&ui_state)[0], "Hello Planet world!");
    assert_eq!(ui_state.cursor_column, 7 + 7);
    assert_eq!(ui_state.cursor_line, 1);
}

#[test]
fn paste_multiple_lines_moves_tail() {
    let mut undo_redo = UndoRedo::new();
    let mut ui_state = sample();
    for _ in 0..6 {
        ui_state.cursor_move_right(false);
    }
    ui_state.handle_paste("Planet!\nAnother line with some text\n".to_string(), &mut undo_redo);
    assert_eq!(
        text_of(&ui_state),
        vec!["Hello Planet!", "Another line with some text", "world!", "", "Description"]
    );
    assert_eq!((ui_state.cursor_line, ui_state.cursor_column), (3, 1));
}

#[test]
fn paste_normalizes_carriage_returns() {
    let mut undo_redo = UndoRedo::new();
    let mut ui_state = sample();
    ui_state.handle_paste("a\r\nb\rc".to_string(), &mut undo_redo);
    assert_eq!(text_of(&ui_state), vec!["a", "b", "cHello world!", "", "Description"]);
    assert_eq!((ui_state.cursor_line, ui_state.cursor_column), (3, 2));
}

#[test]
fn paste_reindents_continuation_lines() {
    let mut undo_redo = UndoRedo::new();
    let lines = vec![chars("    fn main() {"), chars("    }")];
    let mut ui_state = UIState::new(1, lines);
    ui_state.set_editor_offset(0, 0, 20);
    ui_state.cursor_move_line_end(false);
    ui_state.handle_paste("\n  let a = 1;\n    let b = 2;".to_string(), &mut undo_redo);
    assert_eq!(
        text_of(&ui_state),
        vec!["    fn main() {", "    let a = 1;", "      let b = 2;", "    }"]
    );
    assert_eq!((ui_state.cursor_line, ui_state.cursor_column), (3, 17));
}

#[test]
fn paste_trims_when_destination_is_shallower() {
    let mut undo_redo = UndoRedo::new();
    let lines = vec![chars("x")];
    let mut ui_state = UIState::new(1, lines);
    ui_state.set_editor_offset(0, 0, 20);
    ui_state.handle_paste("a\n    b\n      c".to_string(), &mut undo_redo);
    assert_eq!(text_of(&ui_state), vec!["a", "b", "  cx"]);
}

#[test]
fn undo_after_paste_restores_and_redo_reapplies() {
    let mut undo_redo = UndoRedo::new();
    let mut ui_state = sample();
    for _ in 0..6 {
        ui_state.cursor_move_right(false);
    }
    let before = text_of(&ui_state);
    ui_state.handle_paste("Planet!\nAnother line\n".to_string(), &mut undo_redo);
    let after = text_of(&ui_state);
    let after_cursor = (ui_state.cursor_line, ui_state.cursor_column);
    undo_redo.undo_action(&mut ui_state);
    assert_eq!(text_of(&ui_state), before);
    assert_eq!((ui_state.cursor_line, ui_state.cursor_column), (1, 7));
    undo_redo.redo_action(&mut ui_state);
    assert_eq!(text_of(&ui_state), after);
    assert_eq!((ui_state.cursor_line, ui_state.cursor_column), after_cursor);
}

#[test]
fn replacing_a_selection_is_taken_back_with_the_selection() {
    let mut undo_redo = UndoRedo::new();
    let mut ui_state = sample();
    ui_state.cursor_move_right(false);
    ui_state.cursor_move_right(true);
    ui_state.cursor_move_right(true);
    ui_state.cursor_move_right(true);
    assert_eq!(ui_state.get_selection_range(1), Some((2, 5)));
    ui_state.insert_character('X', &mut undo_redo);
    assert_eq!(text_of(&ui_state)[0], "HXo world!");
    assert!(!ui_state.has_any_selection());
    undo_redo.undo_action(&mut ui_state);
    undo_redo.undo_action(&mut ui_state);
    assert_eq!(text_of(&ui_state)[0], "Hello world!");
    assert!(ui_state.has_any_selection());
    assert_eq!(ui_state.get_selection_range(1), Some((2, 5)));
    assert_eq!((ui_state.cursor_line, ui_state.cursor_column), (1, 5));
}

#[test]
fn backspace_over_a_selection_is_undoable() {
    let mut undo_redo = UndoRedo::new();
    let mut ui_state = sample();
    ui_state.cursor_move_down(true);
    ui_state.remove_previous_character(&mut undo_redo);
    assert_eq!(text_of(&ui_state), vec!["", "Description"]);
    undo_redo.undo_action(&mut ui_state);
    assert_eq!(text_of(&ui_state), vec!["Hello world!", "", "Description"]);
    assert!(ui_state.has_any_selection());
    undo_redo.redo_action(&mut ui_state);
    assert_eq!(text_of(&ui_state), vec!["", "Description"]);
}

#[test]
fn tab_without_selection_inserts_spaces() {
    let mut undo_redo = UndoRedo::new();
    let mut ui_state = sample();
    ui_state.cursor_move_right(false);
    ui_state.cursor_move_right(false);
    let config = Config::new();
    ui_state.handle_tab_key(&config, &mut undo_redo);
    assert_eq!(text_of(&ui_state)[0], "He    llo world!");
    assert_eq!(ui_state.cursor_column, 3 + 4);
}

#[test]
fn tab_with_literal_tabs() {
    let mut undo_redo = UndoRedo::new();
    let mut ui_state = sample();
    let config = Config { tabs_to_spaces: false, whitespaces_amount: 4 };
    ui_state.handle_tab_key(&config, &mut undo_redo);
    assert_eq!(text_of(&ui_state)[0], "\tHello world!");
    assert_eq!(ui_state.cursor_column, 2);
}

#[test]
fn backtab_removes_only_existing_whitespace() {
    let lines = vec![chars("  abc")];
    let mut ui_state = UIState::new(1, lines);
    ui_state.set_editor_offset(0, 0, 20);
    ui_state.cursor_move_right(false);
    assert_eq!(ui_state.cursor_column, 2);
    ui_state.handle_backtab_key(&Config::new());
    assert_eq!(text_of(&ui_state), vec!["abc"]);
    assert_eq!(ui_state.cursor_column, 1);

    let lines = vec![chars("      abc")];
    let mut ui_state = UIState::new(1, lines);
    ui_state.set_editor_offset(0, 0, 20);
    ui_state.cursor_move_line_end(false);
    ui_state.handle_backtab_key(&Config::new());
    assert_eq!(text_of(&ui_state), vec!["  abc"]);
    assert_eq!(ui_state.cursor_column, 6);
}

#[test]
fn tab_and_backtab_shift_a_selection() {
    let mut undo_redo = UndoRedo::new();
    let lines = vec![chars("ab"), chars("cd"), chars("ef")];
    let mut ui_state = UIState::new(1, lines);
    ui_state.set_editor_offset(0, 0, 20);
    ui_state.cursor_move_right(false);
    ui_state.cursor_move_down(true);
    ui_state.cursor_move_down(true);
    let config = Config::new();
    ui_state.handle_tab_key(&config, &mut undo_redo);
    assert_eq!(text_of(&ui_state), vec!["    ab", "    cd", "    ef"]);
    assert_eq!(ui_state.get_selection_range(1), Some((6, 0)));
    assert_eq!(ui_state.get_selection_range(3), Some((0, 6)));
    assert!(ui_state.is_entire_line_selected(2));
    assert_eq!((ui_state.cursor_line, ui_state.cursor_column), (3, 6));
    ui_state.handle_backtab_key(&config);
    assert_eq!(text_of(&ui_state), vec!["ab", "cd", "ef"]);
    assert_eq!(ui_state.get_selection_range(1), Some((2, 0)));
    assert_eq!((ui_state.cursor_line, ui_state.cursor_column), (3, 2));
}

#[test]
fn quick_typing_is_one_undo_step() {
    let mut undo_redo = UndoRedo::new();
    let mut ui_state = sample();
    for c in "abc".chars() {
        ui_state.insert_character(c, &mut undo_redo);
    }
    assert_eq!(text_of(&ui_state)[0], "abcHello world!");
    undo_redo.undo_action(&mut ui_state);
    assert_eq!(text_of(&ui_state)[0], "Hello world!");
    assert_eq!((ui_state.cursor_line, ui_state.cursor_column), (1, 1));
}

fn type_at(ui_state: &mut UIState, undo_redo: &mut UndoRedo, c: char, now: u64) {
    let start = (ui_state.cursor_line, ui_state.cursor_column);
    ui_state.insert_text(c.to_string(), false);
    let end = (ui_state.cursor_line, ui_state.cursor_column);
    undo_redo.record_action(UndoAction::AddCharacter(c, start, end, None), now);
}

#[test]
fn a_pause_splits_typing_into_two_undo_steps() {
    let mut undo_redo = UndoRedo::new();
    let mut ui_state = UIState::new(1, vec![vec![]]);
    ui_state.set_editor_offset(0, 0, 20);
    type_at(&mut ui_state, &mut undo_redo, 'a', 1000);
    type_at(&mut ui_state, &mut undo_redo, 'b', 1100);
    type_at(&mut ui_state, &mut undo_redo, 'c', 1349);
    type_at(&mut ui_state, &mut undo_redo, 'd', 1700);
    type_at(&mut ui_state, &mut undo_redo, 'e', 1800);
    assert_eq!(text_of(&ui_state), vec!["abcde"]);
    undo_redo.undo_action(&mut ui_state);
    assert_eq!(text_of(&ui_state), vec!["abc"]);
    undo_redo.undo_action(&mut ui_state);
    assert_eq!(text_of(&ui_state), vec![""]);
    undo_redo.redo_action(&mut ui_state);
    assert_eq!(text_of(&ui_state), vec!["abc"]);
    undo_redo.redo_action(&mut ui_state);
    assert_eq!(text_of(&ui_state), vec!["abcde"]);
}

#[test]
fn exactly_the_window_closes_a_run() {
    let mut undo_redo = UndoRedo::new();
    let mut ui_state = UIState::new(1, vec![vec![]]);
    ui_state.set_editor_offset(0, 0, 20);
    type_at(&mut ui_state, &mut undo_redo, 'a', 0);
    type_at(&mut ui_state, &mut undo_redo, 'b', 250);
    undo_redo.undo_action(&mut ui_state);
    assert_eq!(text_of(&ui_state), vec!["a"]);
}

#[test]
fn backspace_and_delete_runs_are_undone_and_redone() {
    let mut undo_redo = UndoRedo::new();
    let mut ui_state = sample();
    ui_state.cursor_move_line_end(false);
    ui_state.remove_previous_character(&mut undo_redo);
    ui_state.remove_previous_character(&mut undo_redo);
    assert_eq!(text_of(&ui_state)[0], "Hello worl");
    undo_redo.undo_action(&mut ui_state);
    assert_eq!(text_of(&ui_state)[0], "Hello world!");
    assert_eq!((ui_state.cursor_line, ui_state.cursor_column), (1, 13));
    undo_redo.redo_action(&mut ui_state);
    assert_eq!(text_of(&ui_state)[0], "Hello worl");
    assert_eq!((ui_state.cursor_line, ui_state.cursor_column), (1, 11));

    let mut undo_redo = UndoRedo::new();
    let mut ui_state = sample();
    ui_state.remove_next_character(&mut undo_redo);
    ui_state.remove_next_character(&mut undo_redo);
    assert_eq!(text_of(&ui_state)[0], "llo world!");
    undo_redo.undo_action(&mut ui_state);
    assert_eq!(text_of(&ui_state)[0], "Hello world!");
    assert_eq!((ui_state.cursor_line, ui_state.cursor_column), (1, 1));
    undo_redo.redo_action(&mut ui_state);
    assert_eq!(text_of(&ui_state)[0], "llo world!");
}

#[test]
fn undo_with_nothing_recorded_changes_nothing() {
    let mut undo_redo = UndoRedo::new();
    let mut ui_state = sample();
    undo_redo.undo_action(&mut ui_state);
    undo_redo.redo_action(&mut ui_state);
    assert_eq!(text_of(&ui_state), vec!["Hello world!", "", "Description"]);
}

#[test]
fn copy_uses_the_deletion_bounds() {
    let mut ui_state = sample();
    assert_eq!(ui_state.handle_copy(), None);
    ui_state.cursor_move_right(false);
    ui_state.cursor_move_right(true);
    ui_state.cursor_move_right(true);
    assert_eq!(ui_state.handle_copy(), Some("el".to_string()));
    ui_state.cursor_move_down(true);
    ui_state.cursor_move_down(true);
    assert_eq!(ui_state.handle_copy(), Some("ello world!\n\nDes".to_string()));
    ui_state.cursor_move_up(true);
    ui_state.cursor_move_up(true);
    assert_eq!(ui_state.handle_copy(), Some("el".to_string()));
    ui_state.cursor_move_left(true);
    ui_state.cursor_move_left(true);
    assert_eq!(ui_state.handle_copy(), None);
}

#[test]
fn delete_range_of_several_lines() {
    let mut ui_state = UIState::new(1, vec![chars("abc"), chars("def"), chars("ghi"), chars("jkl")]);
    let removed = ui_state.delete_range((4, 2), (1, 3)).unwrap();
    assert_eq!(removed.text, "c\ndef\nghi\nj");
    assert_eq!(removed.start, (4, 2));
    assert_eq!(text_of(&ui_state), vec!["abkl"]);
    assert_eq!((ui_state.cursor_line, ui_state.cursor_column), (1, 1));
    assert!(ui_state.delete_range((1, 1), (7, 1)).is_none());
    assert!(ui_state.delete_range((1, 9), (1, 1)).is_none());
    assert_eq!(text_of(&ui_state), vec!["abkl"]);
}

#[test]
fn new_line_keeps_indentation() {
    let mut ui_state = UIState::new(1, vec![chars("  ab cd")]);
    ui_state.set_editor_offset(0, 0, 20);
    for _ in 0..4 {
        ui_state.cursor_move_right(false);
    }
    ui_state.add_new_line();
    assert_eq!(text_of(&ui_state), vec!["  ab", "   cd"]);
    assert_eq!((ui_state.cursor_line, ui_state.cursor_column), (2, 3));
}

#[test]
fn opening_text_splits_on_every_break() {
    let ui_state = UIState::from_text("a\r\nb\rc\n");
    assert_eq!(text_of(&ui_state), vec!["a", "b", "c"]);
    assert_eq!(ui_state.prefix_len, 3);
    let ui_state = UIState::from_text("");
    assert_eq!(text_of(&ui_state), vec![""]);
    let ui_state = UIState::from_text("x\n\n");
    assert_eq!(text_of(&ui_state), vec!["x", ""]);
    let ui_state = UIState::new(0, vec![]);
    assert_eq!(text_of(&ui_state), vec![""]);
}

#[test]
fn scrolling_follows_the_cursor_minimally() {
    let lines = (0..10).map(|i| chars(&i.to_string())).collect();
    let mut ui_state = UIState::new(2, lines);
    ui_state.set_editor_offset(0, 0, 5);
    assert_eq!(ui_state.editor_lines_num, 3);
    for _ in 0..5 {
        ui_state.cursor_move_down(false);
    }
    assert_eq!(ui_state.editor_scroll_offset, 3);
    ui_state.cursor_move_up(false);
    ui_state.cursor_move_up(false);
    assert_eq!(ui_state.editor_scroll_offset, 3);
    ui_state.cursor_move_up(false);
    assert_eq!(ui_state.editor_scroll_offset, 2);
}

#[test]
fn screen_position_adds_offsets() {
    let mut ui_state = sample();
    let fresh = UIState::new(5, vec![chars("abc")]);
    assert_eq!(fresh.cursor_screen_position(), None);
    ui_state.cursor_move_right(false);
    assert_eq!(ui_state.cursor_screen_position(), Some((2 + 30 + 7, 1)));
}

#[test]
fn vertical_moves_remember_the_column() {
    let lines = vec![chars("abcdef"), chars("ab"), chars("abcdefgh")];
    let mut ui_state = UIState::new(1, lines);
    ui_state.set_editor_offset(0, 0, 20);
    for _ in 0..5 {
        ui_state.cursor_move_right(false);
    }
    ui_state.cursor_move_down(false);
    assert_eq!(ui_state.cursor_column, 3);
    ui_state.cursor_move_down(false);
    assert_eq!(ui_state.cursor_column, 6);
    assert_eq!(ui_state.vertical_offset_target, 6);
    ui_state.cursor_move_left(false);
    assert_eq!(ui_state.vertical_offset_target, 0);
}

#[test]
fn char_selection_queries() {
    let mut ui_state = sample();
    ui_state.cursor_move_right(false);
    ui_state.cursor_move_down(true);
    ui_state.cursor_move_down(true);
    assert!(!ui_state.is_char_selected(1, 1));
    assert!(ui_state.is_char_selected(1, 2));
    assert!(ui_state.is_entire_line_selected(2));
    assert!(ui_state.is_char_selected(3, 1));
    assert!(!ui_state.is_char_selected(3, 2));
    assert!(!ui_state.is_char_selected(4, 1));
}

#[test]
fn byte_offsets_map_to_lines_and_columns() {
    let source = "ab\ncé\nx".as_bytes();
    let conv = ByteToLineCol::new(source);
    assert_eq!(conv.line_starts, vec![0, 3, 7]);
    assert_eq!(conv.byte_to_line_col(0, source).unwrap(), (0, 0));
    assert_eq!(conv.byte_to_line_col(3, source).unwrap(), (1, 0));
    assert_eq!(conv.byte_to_line_col(6, source).unwrap(), (1, 2));
    assert_eq!(conv.byte_to_line_col(8, source).unwrap(), (2, 1));
    assert!(conv.byte_to_line_col(5, source).is_err());
}

#[test]
fn file_tree_entries_and_config() {
    match FileTreeEntry::new("src".to_string(), true) {
        FileTreeEntry::Dir(d) => assert_eq!(d.path, "src"),
        FileTreeEntry::File(_) => panic!("expected a directory"),
    }
    match FileTreeEntry::new("main.rs".to_string(), false) {
        FileTreeEntry::File(f) => assert_eq!(f.path, "main.rs"),
        FileTreeEntry::Dir(_) => panic!("expected a file"),
    }
    let config = Config::new();
    assert!(config.tabs_to_spaces);
    assert_eq!(config.whitespaces_amount, 4);
}

#[test]
fn highlight_events_become_positioned_spans() {
    let source = "ab\ncd".as_bytes();
    let names: [&'static str; 2] = ["keyword", "string"];
    let events = vec![
        SourceEvent::Source(1),
        SourceEvent::Start(1),
        SourceEvent::Start(0),
        SourceEvent::Source(2),
        SourceEvent::End,
        SourceEvent::Source(4),
        SourceEvent::End,
        SourceEvent::End,
    ];
    let entries = collect_highlight_spans(&events, source, &names).unwrap();
    assert_eq!(entries.len(), 4);
    assert_eq!(entries[0].0, (0, 1));
    match &entries[0].1 {
        HighlightType::Start(span) => {
            assert_eq!(span.highlight_name, "keyword");
            assert_eq!((span.start_line, span.start_col), (0, 1));
        }
        HighlightType::End => panic!("expected a start"),
    }
    assert_eq!(entries[1].0, (0, 2));
    assert!(matches!(entries[1].1, HighlightType::End));
    match &entries[2].1 {
        HighlightType::Start(span) => assert_eq!(span.highlight_name, "string"),
        HighlightType::End => panic!("expected a start"),
    }
    assert_eq!(entries[2].0, (0, 1));
    assert_eq!(entries[3].0, (1, 1));
}

#[test]
fn rust_source_is_highlighted() {
    let source = "fn main() {}\nlet x = 1;".as_bytes();
    let entries = match create_syntax_highlighting(source) {
        Ok(entries) => entries,
        Err(_) => panic!("highlighting failed"),
    };
    assert!(!entries.is_empty());
    assert_eq!(entries.len() % 2, 0);
    let keyword_at_start = entries.iter().any(|(pos, t)| {
        *pos == (0, 0)
            && matches!(t, HighlightType::Start(span) if span.highlight_name == "keyword")
    });
    assert!(keyword_at_start);
    assert_eq!(highlight_names().len(), 26);
}

#[test]
fn boundary_moves_with_shift_leave_no_selection() {
    let mut ui_state = sample();
    ui_state.cursor_move_left(true);
    assert!(!ui_state.has_any_selection());
    ui_state.cursor_move_down(false);
    ui_state.cursor_move_down(false);
    ui_state.cursor_move_line_end(false);
    ui_state.cursor_move_right(true);
    assert!(!ui_state.has_any_selection());
    assert_eq!((ui_state.cursor_line, ui_state.cursor_column), (3, 12));
}

#[test]
fn typing_a_line_break_character_changes_nothing() {
    let mut undo_redo = UndoRedo::new();
    let mut ui_state = sample();
    ui_state.insert_character('\n', &mut undo_redo);
    ui_state.insert_character('\r', &mut undo_redo);
    assert_eq!(text_of(&ui_state), vec!["Hello world!", "", "Description"]);
    assert_eq!((ui_state.cursor_line, ui_state.cursor_column), (1, 1));
}

#[test]
fn undo_then_redo_of_a_delete_run_gives_the_state_back() {
    let mut undo_redo = UndoRedo::new();
    let mut ui_state = sample();
    ui_state.cursor_move_line_end(false);
    ui_state.remove_next_character(&mut undo_redo);
    ui_state.remove_next_character(&mut undo_redo);
    assert_eq!(text_of(&ui_state), vec!["Hello world!Description"]);
    undo_redo.undo_action(&mut ui_state);
    assert_eq!(text_of(&ui_state), vec!["Hello world!", "", "Description"]);
    assert_eq!((ui_state.cursor_line, ui_state.cursor_column), (1, 13));
    undo_redo.redo_action(&mut ui_state);
    assert_eq!(text_of(&ui_state), vec!["Hello world!Description"]);
    assert_eq!((ui_state.cursor_line, ui_state.cursor_column), (1, 13));
    assert!(!ui_state.has_any_selection());
}
