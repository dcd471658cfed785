use rut::editor::{
    command_of, Action, Command, Cursor, CursorMovement, Editor, Event, KeyCode, Modifiers,
};

fn at(column: usize, row: usize) -> Cursor {
    Cursor { column, row }
}

fn key(e: &mut Editor, code: KeyCode) -> Action {
    e.handle_key_event(code, Modifiers::Plain)
}

#[test]
fn enter_splits_line_and_moves_down() {
    let mut e = Editor::new("ab\ncd");
    key(&mut e, KeyCode::Right);
    key(&mut e, KeyCode::Right);
    assert_eq!(e.cursor(), at(2, 0));
    assert!(matches!(key(&mut e, KeyCode::Enter), Action::Redraw));
    assert_eq!(e.buffer().contents(), "ab\n\ncd");
    assert_eq!(e.buffer().line_count(), 3);
    assert_eq!(e.cursor(), at(0, 1));
}

#[test]
fn left_at_first_column_changes_nothing() {
    let mut e = Editor::new("ab\ncd");
    assert!(matches!(key(&mut e, KeyCode::Left), Action::Ignore));
    assert_eq!(e.buffer().size(), 5);
    assert_eq!(e.cursor(), at(0, 0));
}

#[test]
fn backspace_at_start_changes_nothing() {
    let mut e = Editor::new("ab\ncd");
    assert!(matches!(key(&mut e, KeyCode::Backspace), Action::Ignore));
    assert_eq!(e.buffer().contents(), "ab\ncd");
    assert_eq!(e.cursor(), at(0, 0));
}

#[test]
fn backspace_deletes_before_cursor() {
    let mut e = Editor::new("ab\ncd");
    key(&mut e, KeyCode::Right);
    key(&mut e, KeyCode::Right);
    assert!(matches!(key(&mut e, KeyCode::Backspace), Action::Redraw));
    assert_eq!(e.buffer().contents(), "a\ncd");
    assert_eq!(e.cursor(), at(1, 0));
}

#[test]
fn backspace_at_line_start_joins_lines() {
    let mut e = Editor::new("ab\ncd");
    key(&mut e, KeyCode::Down);
    assert_eq!(e.cursor(), at(0, 1));
    assert!(matches!(key(&mut e, KeyCode::Backspace), Action::Redraw));
    assert_eq!(e.buffer().contents(), "abcd");
    assert_eq!(e.cursor(), at(0, 1));
    assert_eq!(e.current_buffer_index(), None);
    assert!(matches!(key(&mut e, KeyCode::Char('x')), Action::Ignore));
    assert_eq!(e.buffer().contents(), "abcd");
}

#[test]
fn delete_keeps_cursor() {
    let mut e = Editor::new("ab\ncd");
    key(&mut e, KeyCode::Right);
    assert!(matches!(key(&mut e, KeyCode::Delete), Action::Redraw));
    assert_eq!(e.buffer().contents(), "a\ncd");
    assert_eq!(e.cursor(), at(1, 0));
}

#[test]
fn delete_at_end_changes_nothing() {
    let mut e = Editor::new("ab");
    key(&mut e, KeyCode::Right);
    key(&mut e, KeyCode::Right);
    assert!(matches!(key(&mut e, KeyCode::Delete), Action::Ignore));
    assert_eq!(e.buffer().contents(), "ab");
    assert_eq!(e.cursor(), at(2, 0));
}

#[test]
fn typing_inserts_and_moves_right() {
    let mut e = Editor::new("");
    assert!(matches!(key(&mut e, KeyCode::Char('h')), Action::Redraw));
    let a = e.handle_key_event(KeyCode::Char('I'), Modifiers::Shift);
    assert!(matches!(a, Action::Redraw));
    assert_eq!(e.buffer().contents(), "hI");
    assert_eq!(e.cursor(), at(2, 0));
}

#[test]
fn right_stops_at_line_end() {
    let mut e = Editor::new("ab\ncd");
    key(&mut e, KeyCode::Right);
    key(&mut e, KeyCode::Right);
    assert!(matches!(key(&mut e, KeyCode::Right), Action::Ignore));
    assert_eq!(e.cursor(), at(2, 0));
}

#[test]
fn vertical_moves_stay_within_lines() {
    let mut e = Editor::new("abcd\nx\nlonger");
    assert!(matches!(key(&mut e, KeyCode::Up), Action::Ignore));
    for _ in 0..4 {
        key(&mut e, KeyCode::Right);
    }
    assert_eq!(e.cursor(), at(4, 0));
    key(&mut e, KeyCode::Down);
    assert_eq!(e.cursor(), at(1, 1));
    key(&mut e, KeyCode::Down);
    assert_eq!(e.cursor(), at(1, 2));
    assert!(matches!(key(&mut e, KeyCode::Down), Action::Ignore));
    assert_eq!(e.cursor(), at(1, 2));
    key(&mut e, KeyCode::Up);
    key(&mut e, KeyCode::Up);
    assert_eq!(e.cursor(), at(1, 0));
}

#[test]
fn save_hands_out_snapshot() {
    let mut e = Editor::new("ab");
    key(&mut e, KeyCode::Char('c'));
    match e.handle_key_event(KeyCode::Char('s'), Modifiers::Control) {
        Action::Save(snapshot) => assert_eq!(snapshot, "cab"),
        other => panic!("expected a save, got {:?}", other),
    }
    key(&mut e, KeyCode::Char('d'));
    assert_eq!(e.buffer().contents(), "cdab");
}

#[test]
fn control_c_exits() {
    let mut e = Editor::new("ab");
    let a = e.handle_key_event(KeyCode::Char('c'), Modifiers::Control);
    assert!(matches!(a, Action::Exit));
    assert_eq!(e.buffer().contents(), "ab");
}

#[test]
fn unbound_events_are_ignored() {
    let mut e = Editor::new("ab");
    assert!(matches!(e.handle_event(Event::Other), Action::Ignore));
    let a = e.handle_event(Event::Key(KeyCode::Char('x'), Modifiers::Control));
    assert!(matches!(a, Action::Ignore));
    let a = e.handle_event(Event::Key(KeyCode::Up, Modifiers::Shift));
    assert!(matches!(a, Action::Ignore));
    let a = e.handle_event(Event::Key(KeyCode::Other, Modifiers::Plain));
    assert!(matches!(a, Action::Ignore));
    assert_eq!(e.buffer().contents(), "ab");
    assert_eq!(e.cursor(), at(0, 0));
}

#[test]
fn key_bindings() {
    assert_eq!(command_of(KeyCode::Enter, Modifiers::Plain), Command::Insert('\n'));
    assert_eq!(command_of(KeyCode::Char('s'), Modifiers::Control), Command::Save);
    assert_eq!(command_of(KeyCode::Char('c'), Modifiers::Control), Command::Exit);
    assert_eq!(
        command_of(KeyCode::Left, Modifiers::Plain),
        Command::Move(CursorMovement::Left)
    );
    assert_eq!(command_of(KeyCode::Char('q'), Modifiers::Shift), Command::Insert('q'));
    assert_eq!(command_of(KeyCode::Delete, Modifiers::Control), Command::Ignore);
}

#[test]
fn apply_move_and_event_key_agree() {
    let mut a = Editor::new("ab\ncd");
    let mut b = Editor::new("ab\ncd");
    a.apply(Command::Move(CursorMovement::Down));
    b.handle_event(Event::Key(KeyCode::Down, Modifiers::Plain));
    assert_eq!(a.cursor(), b.cursor());
    assert_eq!(a.cursor(), at(0, 1));
    a.move_cursor(CursorMovement::Right);
    assert_eq!(a.cursor(), at(1, 1));
}
