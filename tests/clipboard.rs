use love_editor::editor::UIState;
use love_editor::undo_redo::UndoRedo;

#[test]
fn correctly_calculates_whitespaces_without_first_line() {
    let data = vec![
        (0, vec!['c', 'h', 'a', 'r']),
        (1, vec![' ', ' ', 'l', 'i', 'n', 'e']),
        (2, vec![' ', ' ', 'l', 'i', 'n', 'e']),
    ];

    assert_eq!(UIState::get_common_whitespaces_prefix(&data), 2);
}

#[test]
fn respects_whitespaces_first_line() {
    let data = vec![
        (0, vec![' ', ' ', 'c', 'h', 'a', 'r']),
        (1, vec![' ', ' ', ' ', ' ', 'l', 'i', 'n', 'e']),
        (2, vec![' ', ' ', ' ', ' ', 'l', 'i', 'n', 'e']),
    ];

    assert_eq!(UIState::get_common_whitespaces_prefix(&data), 2);
}

#[test]
fn calculates_correctly_with_different_prefix() {
    let data = vec![
        (0, vec!['c', 'h', 'a', 'r']),
        (1, vec![' ', ' ', ' ', ' ', 'l', 'i', 'n', 'e']),
        (2, vec![' ', ' ', 'l', 'i', 'n', 'e']),
    ];

    assert_eq!(UIState::get_common_whitespaces_prefix(&data), 2);
}

#[test]
fn calculates_correctly_with_zero_prefix() {
    let data = vec![
        (0, vec!['c', 'h', 'a', 'r']),
        (1, vec![' ', ' ', ' ', ' ', 'l', 'i', 'n', 'e']),
        (2, vec![' ', ' ', 'l', 'i', 'n', 'e']),
        (3, vec!['l', 'i', 'n', 'e']),
    ];

    assert_eq!(UIState::get_common_whitespaces_prefix(&data), 0);
}

#[test]
fn handles_empty_lines_correctly() {
    let data = vec![
        (0, vec!['c', 'h', 'a', 'r']),
        (1, vec![' ', ' ', ' ', ' ', 'l', 'i', 'n', 'e']),
        (3, vec![]),
        (2, vec![' ', ' ', 'l', 'i', 'n', 'e']),
    ];

    assert_eq!(UIState::get_common_whitespaces_prefix(&data), 2);
}

#[test]
fn paste_single_line_correctly() {
    let mut undo_redo = UndoRedo::new();

    let lines = vec![
        vec!['H', 'e', 'l', 'l', 'o', ' ', 'w', 'o', 'r', 'l', 'd', '!'],
        vec![],
        vec!['D', 'e', 's', 'c', 'r', 'i', 'p', 't', 'i', 'o', 'n'],
    ];

    let mut ui_state = UIState::new(5, lines);
    ui_state.set_editor_offset(30, 0, 50);

    for _ in 0..6 {
        ui_state.cursor_move_right(false);
    }

    assert_eq!(ui_state.cursor_line, 1);
    assert_eq!(ui_state.cursor_column, 7);

    let data = "Planet ";

    ui_state.handle_paste(data.to_string(), &mut undo_redo);

    assert_eq!(String::from_iter(&ui_state.lines[0]), "Hello Planet world!");

    assert_eq!(ui_state.cursor_column, 14);
}

#[test]
fn paste_multines_correctly() {
    let mut undo_redo = UndoRedo::new();
    let lines = vec![
        vec!['H', 'e', 'l', 'l', 'o', ' ', 'w', 'o', 'r', 'l', 'd', '!'],
        vec![],
        vec!['D', 'e', 's', 'c', 'r', 'i', 'p', 't', 'i', 'o', 'n'],
    ];
    let mut ui_state = UIState::new(5, lines);
    ui_state.set_editor_offset(30, 0, 50);

    for _ in 0..6 {
        ui_state.cursor_move_right(false);
    }

    assert_eq!(ui_state.cursor_line, 1);
    assert_eq!(ui_state.cursor_column, 7);

    let data = "Planet!\nAnother line with some text\n";

    ui_state.handle_paste(data.to_string(), &mut undo_redo);

    assert_eq!(ui_state.lines.len(), 5);
    assert_eq!(ui_state.cursor_line, 3);

    assert_eq!(String::from_iter(&ui_state.lines[0]), "Hello Planet!");
    assert_eq!(
        String::from_iter(&ui_state.lines[1]),
        "Another line with some text"
    );
    assert_eq!(String::from_iter(&ui_state.lines[2]), "world!");
    assert_eq!(String::from_iter(&ui_state.lines[3]), "");
    assert_eq!(String::from_iter(&ui_state.lines[4]), "Description");
}
