use love_editor::editor::UIState;
use love_editor::undo_redo::UndoRedo;
use love_editor::editing::Config;

#[test]
fn text_editing_inserts_new_character_correctly() {
    let mut undo_redo = UndoRedo::new();
    let lines = vec![
        vec!['H', 'e', 'l', 'l', 'o', ' ', 'w', 'o', 'r', 'l', 'd', '!'],
        vec![],
        vec!['D', 'e', 's', 'c', 'r', 'i', 'p', 't', 'i', 'o', 'n'],
    ];
    let mut ui_state = UIState::new(5, lines);
    ui_state.set_editor_offset(30, 0, 50);

    for _ in 0..6 {
        ui_state.cursor_move_right(false);
    }

    ui_state.insert_character('m', &mut undo_redo);
    ui_state.insert_character('y', &mut undo_redo);
    ui_state.insert_character(' ', &mut undo_redo);

    assert_eq!(String::from_iter(&ui_state.lines[0]), "Hello my world!")
}

#[test]
fn text_editing_deletes_previous_character_correctly() {
    let mut undo_redo = UndoRedo::new();
    let lines = vec![
        vec!['H', 'e', 'l', 'l', 'o', ' ', 'w', 'o', 'r', 'l', 'd', '!'],
        vec![],
        vec!['D', 'e', 's', 'c', 'r', 'i', 'p', 't', 'i', 'o', 'n'],
    ];
    let mut ui_state = UIState::new(5, lines);
    ui_state.set_editor_offset(30, 0, 50);

    for _ in 0..6 {
        ui_state.cursor_move_right(false);
    }

    // intentionally delete more than 6 characters
    for _ in 0..15 {
        ui_state.remove_previous_character(&mut undo_redo);
    }

    assert_eq!(String::from_iter(&ui_state.lines[0]), "world!");
    assert_eq!(ui_state.cursor_column, 1);
}

#[test]
fn text_editing_deletes_next_character_correctly() {
    let mut undo_redo = UndoRedo::new();
    let lines = vec![
        vec!['H', 'e', 'l', 'l', 'o', ' ', 'w', 'o', 'r', 'l', 'd', '!'],
        vec![],
        vec!['D', 'e', 's', 'c', 'r', 'i', 'p', 't', 'i', 'o', 'n'],
    ];
    let mut ui_state = UIState::new(5, lines);
    ui_state.set_editor_offset(30, 0, 50);

    for _ in 0..6 {
        ui_state.remove_next_character(&mut undo_redo);
    }

    assert_eq!(String::from_iter(&ui_state.lines[0]), "world!");
    assert_eq!(ui_state.cursor_column, 1);
}

#[test]
fn text_editing_adds_new_line_correctly() {
    let lines = vec![
        vec!['H', 'e', 'l', 'l', 'o', ' ', 'w', 'o', 'r', 'l', 'd', '!'],
        vec![],
        vec!['D', 'e', 's', 'c', 'r', 'i', 'p', 't', 'i', 'o', 'n'],
    ];
    let mut ui_state = UIState::new(5, lines);
    ui_state.set_editor_offset(30, 0, 50);

    ui_state.cursor_move_right(false);
    ui_state.cursor_move_right(false);
    ui_state.cursor_move_right(false);

    ui_state.add_new_line();

    assert_eq!(ui_state.cursor_column, 1);
    assert_eq!(ui_state.cursor_line, 2);

    assert_eq!(String::from_iter(&ui_state.lines[0]), "Hel");
    assert_eq!(String::from_iter(&ui_state.lines[1]), "lo world!");

    ui_state.cursor_move_line_end(false);
    ui_state.add_new_line();

    assert_eq!(ui_state.cursor_column, 1);
    assert_eq!(ui_state.cursor_line, 3);

    assert_eq!(String::from_iter(&ui_state.lines[1]), "lo world!");
    assert_eq!(String::from_iter(&ui_state.lines[4]), "Description");
}

#[test]
fn text_editing_handles_backspace_lines_deleting_correctly() {
    let mut undo_redo = UndoRedo::new();
    let lines = vec![
        vec!['H', 'e', 'l', 'l', 'o', ' ', 'w', 'o', 'r', 'l', 'd', '!'],
        vec![],
        vec!['D', 'e', 's', 'c', 'r', 'i', 'p', 't', 'i', 'o', 'n'],
    ];
    let mut ui_state = UIState::new(5, lines);
    ui_state.set_editor_offset(30, 0, 50);

    ui_state.cursor_move_down(false);

    ui_state.remove_previous_character(&mut undo_redo);

    assert_eq!(ui_state.lines.len(), 2);
    assert_eq!(ui_state.cursor_column, 13);
    assert_eq!(ui_state.cursor_line, 1);

    // bring it to the first character
    ui_state.cursor_move_up(false);
    // forget the vertical offset
    ui_state.cursor_move_left(false);
    ui_state.cursor_move_down(false);

    // make sure we are at the beginning of the second line
    assert_eq!(ui_state.cursor_column, 1);
    assert_eq!(ui_state.cursor_line, 2);

    ui_state.remove_previous_character(&mut undo_redo);

    assert_eq!(ui_state.cursor_column, 13);
    assert_eq!(ui_state.cursor_line, 1);

    assert_eq!(ui_state.lines.len(), 1);
    assert_eq!(
        String::from_iter(&ui_state.lines[0]),
        "Hello world!Description"
    );
}

#[test]
fn text_editing_handles_deletekey_lines_deleting_correctly() {
    let mut undo_redo = UndoRedo::new();
    let lines = vec![
        vec!['H', 'e', 'l', 'l', 'o', ' ', 'w', 'o', 'r', 'l', 'd', '!'],
        vec![],
        vec!['D', 'e', 's', 'c', 'r', 'i', 'p', 't', 'i', 'o', 'n'],
    ];
    let mut ui_state = UIState::new(5, lines);
    ui_state.set_editor_offset(30, 0, 50);

    for _ in 0..12 {
        ui_state.cursor_move_right(false);
    }

    // make sure we are at the beginning of the first line
    assert_eq!(ui_state.cursor_column, 13);
    assert_eq!(ui_state.cursor_line, 1);

    ui_state.remove_next_character(&mut undo_redo);

    assert_eq!(ui_state.lines.len(), 2);

    ui_state.remove_next_character(&mut undo_redo);
    assert_eq!(ui_state.lines.len(), 1);

    assert_eq!(
        String::from_iter(&ui_state.lines[0]),
        "Hello world!Description"
    );

    // navigate to the end of the last line
    ui_state.cursor_move_down(false);

    assert_eq!(ui_state.cursor_column, 24);
    assert_eq!(ui_state.cursor_line, 1);

    // nothing should happen, we are at the end of the file
    ui_state.remove_next_character(&mut undo_redo);

    assert_eq!(ui_state.cursor_column, 24);
    assert_eq!(ui_state.cursor_line, 1);
}

#[test]
fn text_editing_handles_selection_delete_correctly() {
    let mut undo_redo = UndoRedo::new();
    let lines = vec![
        vec!['H', 'e', 'l', 'l', 'o', ' ', 'w', 'o', 'r', 'l', 'd', '!'],
        vec!['A', 'n', 'o', 't', 'h', 'e', 'r', ' ', 'l', 'i', 'n', 'e'],
        vec!['D', 'e', 's', 'c', 'r', 'i', 'p', 't', 'i', 'o', 'n'],
    ];
    let mut ui_state = UIState::new(5, lines);
    ui_state.set_editor_offset(30, 0, 50);

    ui_state.cursor_move_right(false);
    ui_state.cursor_move_right(false);
    ui_state.cursor_move_right(false);

    ui_state.cursor_move_right(true);
    ui_state.cursor_move_right(true);

    ui_state.remove_previous_character(&mut undo_redo);

    assert_eq!(ui_state.cursor_column, 4);
    assert_eq!(ui_state.cursor_line, 1);

    assert_eq!(String::from_iter(&ui_state.lines[0]), "Hel world!");

    ui_state.cursor_move_left(true);
    ui_state.cursor_move_left(true);

    ui_state.remove_next_character(&mut undo_redo);

    assert_eq!(ui_state.cursor_column, 2);
    assert_eq!(ui_state.cursor_line, 1);

    assert_eq!(String::from_iter(&ui_state.lines[0]), "H world!");

    ui_state.cursor_move_down(false);
    ui_state.cursor_move_right(false);
    ui_state.cursor_move_right(false);
    ui_state.cursor_move_down(true);

    ui_state.remove_next_character(&mut undo_redo);

    assert_eq!(ui_state.cursor_column, 4);
    assert_eq!(ui_state.cursor_line, 2);

    assert_eq!(String::from_iter(&ui_state.lines[1]), "Anocription");

    ui_state.cursor_move_right(true);
    ui_state.cursor_move_right(true);

    ui_state.insert_character('R', &mut undo_redo);
    ui_state.insert_character('O', &mut undo_redo);
    ui_state.insert_character('O', &mut undo_redo);
    ui_state.insert_character('T', &mut undo_redo);

    assert_eq!(ui_state.cursor_column, 8);
    assert_eq!(ui_state.cursor_line, 2);

    assert_eq!(String::from_iter(&ui_state.lines[1]), "AnoROOTiption");

    ui_state.cursor_move_left(true);
    ui_state.cursor_move_left(true);

    ui_state.add_new_line();

    assert_eq!(ui_state.cursor_column, 1);
    assert_eq!(ui_state.cursor_line, 3);

    assert_eq!(String::from_iter(&ui_state.lines[1]), "AnoRO");
    assert_eq!(String::from_iter(&ui_state.lines[2]), "iption");
    assert_eq!(String::from_iter(&ui_state.lines[0]), "H world!");

    ui_state.cursor_move_line_end(false);
    ui_state.add_new_line();

    ui_state.insert_character('S', &mut undo_redo);
    ui_state.insert_character('o', &mut undo_redo);
    ui_state.insert_character('m', &mut undo_redo);
    ui_state.insert_character('e', &mut undo_redo);
    ui_state.insert_character('t', &mut undo_redo);
    ui_state.insert_character('h', &mut undo_redo);
    ui_state.insert_character('i', &mut undo_redo);
    ui_state.insert_character('n', &mut undo_redo);
    ui_state.insert_character('g', &mut undo_redo);

    assert_eq!(String::from_iter(&ui_state.lines[3]), "Something");

    ui_state.cursor_move_left(false);
    ui_state.cursor_move_left(false);

    ui_state.cursor_move_up(true);
    ui_state.cursor_move_up(true);
    ui_state.cursor_move_up(true);

    ui_state.remove_previous_character(&mut undo_redo);

    assert_eq!(ui_state.cursor_column, 8);
    assert_eq!(ui_state.cursor_line, 1);

    ui_state.insert_character(' ', &mut undo_redo);

    assert_eq!(ui_state.lines.len(), 1);
    assert_eq!(String::from_iter(&ui_state.lines[0]), "H world ng");
}

#[test]
fn text_editing_handles_newline_with_whitespaces() {
    let mut undo_redo = UndoRedo::new();
    let lines = vec![
        vec!['H', 'e', 'l', 'l', 'o', ' ', 'w', 'o', 'r', 'l', 'd', '!'],
        vec!['A', 'n', 'o', 't', 'h', 'e', 'r', ' ', 'l', 'i', 'n', 'e'],
        vec!['D', 'e', 's', 'c', 'r', 'i', 'p', 't', 'i', 'o', 'n'],
    ];
    let mut ui_state = UIState::new(5, lines);
    let config = Config::new();
    ui_state.set_editor_offset(30, 0, 50);

    ui_state.handle_tab_key(&config, &mut undo_redo);

    assert_eq!(ui_state.cursor_column, 5);
    assert_eq!(ui_state.cursor_line, 1);

    assert_eq!(String::from_iter(&ui_state.lines[0]), "    Hello world!");

    ui_state.cursor_move_line_end(false);
    ui_state.add_new_line();

    assert_eq!(ui_state.cursor_column, 5);
    assert_eq!(ui_state.cursor_line, 2);

    assert_eq!(String::from_iter(&ui_state.lines[1]), "    ");
}
