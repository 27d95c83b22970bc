use love_editor::editor::UIState;
use love_editor::undo_redo::UndoRedo;

#[test]
fn handle_selection_correctly() {
    let lines = vec![
        vec!['H', 'e', 'l', 'l', 'o', ' ', 'w', 'o', 'r', 'l', 'd', '!'],
        vec!['A', 'n', 'o', 't', 'h', 'e', 'r', ' ', 'l', 'i', 'n', 'e'],
        vec!['D', 'e', 's', 'c', 'r', 'i', 'p', 't', 'i', 'o', 'n'],
    ];
    let mut ui_state = UIState::new(5, lines);
    ui_state.set_editor_offset(30, 0, 50);

    ui_state.cursor_move_right(true);
    ui_state.cursor_move_right(true);

    assert!(ui_state.has_any_selection());
    let selection = ui_state.get_selection_range(1).unwrap();

    assert_eq!(selection, (1, 3));

    ui_state.cursor_move_right(false);

    assert!(!ui_state.has_any_selection());

    ui_state.cursor_move_left(true);
    ui_state.cursor_move_left(true);

    let selection = ui_state.get_selection_range(1).unwrap();
    assert_eq!(selection, (2, 4));

    assert_eq!(ui_state.cursor_column, 2);
    assert_eq!(ui_state.cursor_line, 1);

    ui_state.cursor_move_right(false);

    assert!(!ui_state.has_any_selection());

    ui_state.cursor_move_right(true);
    ui_state.cursor_move_down(true);

    let selection1 = ui_state.get_selection_range(1).unwrap();
    let selection2 = ui_state.get_selection_range(2).unwrap();

    assert_eq!(selection1, (3, 0));
    assert_eq!(selection2, (0, 4));
}

#[test]
fn handle_multi_line_selection_correctly() {
    let lines = vec![
        vec!['H', 'e', 'l', 'l', 'o', ' ', 'w', 'o', 'r', 'l', 'd', '!'],
        vec!['A', 'n', 'o', 't', 'h', 'e', 'r', ' ', 'l', 'i', 'n', 'e'],
        vec!['D', 'e', 's', 'c', 'r', 'i', 'p', 't', 'i', 'o', 'n'],
    ];
    let mut ui_state = UIState::new(5, lines);
    ui_state.set_editor_offset(30, 0, 50);

    ui_state.cursor_move_down(true);

    let selection1 = ui_state.get_selection_range(1).unwrap();
    let selection2 = ui_state.get_selection_range(2).unwrap();

    assert_eq!(selection1, (1, 0));
    assert_eq!(selection2, (0, 1));
}

#[test]
fn selection_actions_handles_selection_delete_correctly() {
    let mut undo_redo = UndoRedo::new();
    let lines = vec![
        vec!['H', 'e', 'l', 'l', 'o', ' ', 'w', 'o', 'r', 'l', 'd', '!'],
        vec!['A', 'n', 'o', 't', 'h', 'e', 'r', ' ', 'l', 'i', 'n', 'e'],
        vec!['D', 'e', 's', 'c', 'r', 'i', 'p', 't', 'i', 'o', 'n'],
    ];
    let mut ui_state = UIState::new(5, lines);
    ui_state.set_editor_offset(30, 0, 50);

    ui_state.cursor_move_right(false);
    ui_state.cursor_move_right(false);
    ui_state.cursor_move_right(false);

    ui_state.cursor_move_right(true);
    ui_state.cursor_move_right(true);

    ui_state.remove_previous_character(&mut undo_redo);

    assert_eq!(ui_state.cursor_column, 4);
    assert_eq!(ui_state.cursor_line, 1);

    assert_eq!(String::from_iter(&ui_state.lines[0]), "Hel world!");

    ui_state.cursor_move_left(true);
    ui_state.cursor_move_left(true);

    ui_state.remove_next_character(&mut undo_redo);

    assert_eq!(ui_state.cursor_column, 2);
    assert_eq!(ui_state.cursor_line, 1);

    assert_eq!(String::from_iter(&ui_state.lines[0]), "H world!");

    ui_state.cursor_move_down(false);
    ui_state.cursor_move_right(false);
    ui_state.cursor_move_right(false);
    ui_state.cursor_move_down(true);

    ui_state.remove_next_character(&mut undo_redo);

    assert_eq!(ui_state.cursor_column, 4);
    assert_eq!(ui_state.cursor_line, 2);

    assert_eq!(String::from_iter(&ui_state.lines[1]), "Anocription");

    ui_state.cursor_move_right(true);
    ui_state.cursor_move_right(true);

    ui_state.insert_character('R', &mut undo_redo);
    ui_state.insert_character('O', &mut undo_redo);
    ui_state.insert_character('O', &mut undo_redo);
    ui_state.insert_character('T', &mut undo_redo);

    assert_eq!(ui_state.cursor_column, 8);
    assert_eq!(ui_state.cursor_line, 2);

    assert_eq!(String::from_iter(&ui_state.lines[1]), "AnoROOTiption");

    ui_state.cursor_move_left(true);
    ui_state.cursor_move_left(true);

    ui_state.add_new_line();

    assert_eq!(ui_state.cursor_column, 1);
    assert_eq!(ui_state.cursor_line, 3);

    assert_eq!(String::from_iter(&ui_state.lines[1]), "AnoRO");
    assert_eq!(String::from_iter(&ui_state.lines[2]), "iption");
    assert_eq!(String::from_iter(&ui_state.lines[0]), "H world!");

    ui_state.cursor_move_line_end(false);
    ui_state.add_new_line();

    ui_state.insert_character('S', &mut undo_redo);
    ui_state.insert_character('o', &mut undo_redo);
    ui_state.insert_character('m', &mut undo_redo);
    ui_state.insert_character('e', &mut undo_redo);
    ui_state.insert_character('t', &mut undo_redo);
    ui_state.insert_character('h', &mut undo_redo);
    ui_state.insert_character('i', &mut undo_redo);
    ui_state.insert_character('n', &mut undo_redo);
    ui_state.insert_character('g', &mut undo_redo);

    assert_eq!(String::from_iter(&ui_state.lines[3]), "Something");

    ui_state.cursor_move_left(false);
    ui_state.cursor_move_left(false);

    ui_state.cursor_move_up(true);
    ui_state.cursor_move_up(true);
    ui_state.cursor_move_up(true);

    ui_state.remove_previous_character(&mut undo_redo);

    assert_eq!(ui_state.cursor_column, 8);
    assert_eq!(ui_state.cursor_line, 1);

    ui_state.insert_character(' ', &mut undo_redo);

    assert_eq!(ui_state.lines.len(), 1);
    assert_eq!(String::from_iter(&ui_state.lines[0]), "H world ng");
}

#[test]
fn handles_line_start_end_selection() {
    let lines = vec![
        vec!['H', 'e', 'l', 'l', 'o', ' ', 'w', 'o', 'r', 'l', 'd', '!'],
        vec!['A', 'n', 'o', 't', 'h', 'e', 'r', ' ', 'l', 'i', 'n', 'e'],
        vec!['D', 'e', 's', 'c', 'r', 'i', 'p', 't', 'i', 'o', 'n'],
    ];
    let mut ui_state = UIState::new(5, lines);
    ui_state.set_editor_offset(30, 0, 50);

    ui_state.cursor_move_right(false);
    ui_state.cursor_move_right(false);
    ui_state.cursor_move_right(false);

    ui_state.cursor_move_line_end(true);

    let selection = ui_state.get_selection_range(1).unwrap();
    assert_eq!(selection, (4, 13));

    ui_state.cursor_move_line_start(true);

    let selection = ui_state.get_selection_range(1).unwrap();
    assert_eq!(selection, (1, 4));
}
