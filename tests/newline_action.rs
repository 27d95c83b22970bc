use love_editor::editor::UIState;
use love_editor::undo_redo::UndoRedo;
use love_editor::editing::Config;

#[test]
fn newline_action_adds_new_line_correctly() {
    let lines = vec![
        vec!['H', 'e', 'l', 'l', 'o', ' ', 'w', 'o', 'r', 'l', 'd', '!'],
        vec![],
        vec!['D', 'e', 's', 'c', 'r', 'i', 'p', 't', 'i', 'o', 'n'],
    ];
    let mut ui_state = UIState::new(5, lines);
    ui_state.set_editor_offset(30, 0, 50);

    ui_state.cursor_move_right(false);
    ui_state.cursor_move_right(false);
    ui_state.cursor_move_right(false);

    ui_state.add_new_line();

    assert_eq!(ui_state.cursor_column, 1);
    assert_eq!(ui_state.cursor_line, 2);

    assert_eq!(String::from_iter(&ui_state.lines[0]), "Hel");
    assert_eq!(String::from_iter(&ui_state.lines[1]), "lo world!");

    ui_state.cursor_move_line_end(false);
    ui_state.add_new_line();

    assert_eq!(ui_state.cursor_column, 1);
    assert_eq!(ui_state.cursor_line, 3);

    assert_eq!(String::from_iter(&ui_state.lines[1]), "lo world!");
    assert_eq!(String::from_iter(&ui_state.lines[4]), "Description");
}

#[test]
fn newline_action_handles_newline_with_whitespaces() {
    let mut undo_redo = UndoRedo::new();
    let lines = vec![
        vec!['H', 'e', 'l', 'l', 'o', ' ', 'w', 'o', 'r', 'l', 'd', '!'],
        vec!['A', 'n', 'o', 't', 'h', 'e', 'r', ' ', 'l', 'i', 'n', 'e'],
        vec!['D', 'e', 's', 'c', 'r', 'i', 'p', 't', 'i', 'o', 'n'],
    ];
    let mut ui_state = UIState::new(5, lines);
    let config = Config::new();
    ui_state.set_editor_offset(30, 0, 50);

    ui_state.handle_tab_key(&config, &mut undo_redo);

    assert_eq!(ui_state.cursor_column, 5);
    assert_eq!(ui_state.cursor_line, 1);

    assert_eq!(String::from_iter(&ui_state.lines[0]), "    Hello world!");

    ui_state.cursor_move_line_end(false);
    ui_state.add_new_line();

    assert_eq!(ui_state.cursor_column, 5);
    assert_eq!(ui_state.cursor_line, 2);

    assert_eq!(String::from_iter(&ui_state.lines[1]), "    ");
}
