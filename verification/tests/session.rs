use frust::config::Config;
use frust::input_field::InputMode;
use frust::session::Action;
use frust::session::Event;
use frust::session::Key;
use frust::session::Session;
use frust::session::SessionMode;
use frust::substitution::update_file_version;
use frust::substitution::IoFailure;

fn session_with(n: usize) -> Session {
    Session::new(
        (0..n)
            .map(|i| Config::new(format!("project-{}", i), format!("/srv/project-{}/VERSION", i), "1.0.0".to_string()))
            .collect(),
    )
}

fn is_browsing(session: &Session) -> bool {
    matches!(session.mode, SessionMode::Browsing)
}

fn popup_text(session: &Session) -> Option<(String, usize)> {
    match &session.mode {
        SessionMode::Browsing => None,
        SessionMode::PopupOpen { field } => Some((field.input.clone(), field.character_index)),
    }
}

#[test]
fn session_starts_browsing() {
    let session = session_with(2);
    assert!(is_browsing(&session));
    assert_eq!(session.list.highlighted_index, Some(0));
    assert_eq!(session.last_failure, None);
    assert!(!session.is_editing());
}

#[test]
fn confirm_type_confirm_applies_typed_version() {
    let mut session = session_with(1);
    assert_eq!(session.handle(Event::Confirm), Action::Continue);
    assert_eq!(popup_text(&session), Some((String::new(), 0)));
    assert!(session.is_editing());
    for c in "9.9.9".chars() {
        assert_eq!(session.handle(Event::Character(c)), Action::Continue);
    }
    assert_eq!(popup_text(&session), Some(("9.9.9".to_string(), 5)));
    let action = session.handle(Event::Confirm);
    assert_eq!(action, Action::Apply { index: 0, new_version: "9.9.9".to_string() });
    assert!(is_browsing(&session));
    assert_eq!(session.list.highlighted_index, Some(0));
}

#[test]
fn confirm_type_cancel_applies_nothing() {
    let mut session = session_with(1);
    session.handle(Event::Confirm);
    for c in "9.9.9".chars() {
        assert_eq!(session.handle(Event::Character(c)), Action::Continue);
    }
    assert_eq!(session.handle(Event::Cancel), Action::Continue);
    assert!(is_browsing(&session));
    session.handle(Event::Confirm);
    assert_eq!(popup_text(&session), Some((String::new(), 0)));
}

#[test]
fn applied_action_drives_the_substitution() {
    let mut session = session_with(3);
    session.handle(Event::NavigateDown);
    session.handle(Event::Confirm);
    for c in "2.0.0".chars() {
        session.handle(Event::Character(c));
    }
    match session.handle(Event::Confirm) {
        Action::Apply { index, new_version } => {
            assert_eq!(index, 1);
            let record = session.list.get(index).unwrap();
            assert_eq!(record.location.location, "/srv/project-1/VERSION");
            let lines = vec!["v=1.0.0".to_string(), "name=foo".to_string()];
            assert_eq!(update_file_version(record, &new_version, &lines), "v=2.0.0\nname=foo");
        }
        other => panic!("expected a substitution, got {:?}", other),
    }
}

#[test]
fn navigation_moves_highlight_while_browsing() {
    let mut session = session_with(3);
    assert_eq!(session.handle(Event::NavigateDown), Action::Continue);
    assert_eq!(session.list.highlighted_index, Some(1));
    session.handle(Event::NavigateDown);
    session.handle(Event::NavigateDown);
    assert_eq!(session.list.highlighted_index, Some(2));
    session.handle(Event::NavigateUp);
    assert_eq!(session.list.highlighted_index, Some(1));
    session.handle(Event::NavigateUp);
    session.handle(Event::NavigateUp);
    assert_eq!(session.list.highlighted_index, Some(0));
    assert!(is_browsing(&session));
}

#[test]
fn navigation_is_ignored_in_the_popup() {
    let mut session = session_with(3);
    session.handle(Event::Confirm);
    assert_eq!(session.handle(Event::NavigateDown), Action::Continue);
    assert_eq!(session.handle(Event::NavigateUp), Action::Continue);
    assert_eq!(session.list.highlighted_index, Some(0));
    assert_eq!(popup_text(&session), Some((String::new(), 0)));
}

#[test]
fn confirm_on_empty_list_is_ignored() {
    let mut session = session_with(0);
    assert_eq!(session.handle(Event::Confirm), Action::Continue);
    assert!(is_browsing(&session));
    assert_eq!(session.handle(Event::NavigateDown), Action::Continue);
    assert_eq!(session.list.highlighted_index, None);
}

#[test]
fn quit_while_browsing_ends_the_session() {
    let mut session = session_with(2);
    assert_eq!(session.handle(Event::Quit), Action::Exit);
}

#[test]
fn quit_in_popup_only_closes_it() {
    let mut session = session_with(2);
    session.handle(Event::Confirm);
    session.handle(Event::Character('1'));
    assert_eq!(session.handle(Event::Quit), Action::Continue);
    assert!(is_browsing(&session));
    assert_eq!(session.handle(Event::Quit), Action::Exit);
}

#[test]
fn editing_events_reach_the_field() {
    let mut session = session_with(1);
    session.handle(Event::Confirm);
    for c in "1.é3".chars() {
        session.handle(Event::Character(c));
    }
    session.handle(Event::Left);
    session.handle(Event::Delete);
    assert_eq!(popup_text(&session), Some(("1.3".to_string(), 2)));
    session.handle(Event::Character('2'));
    session.handle(Event::Character('.'));
    session.handle(Event::Right);
    session.handle(Event::Right);
    assert_eq!(popup_text(&session), Some(("1.2.3".to_string(), 5)));
    session.handle(Event::Left);
    session.handle(Event::Left);
    session.handle(Event::Left);
    session.handle(Event::Left);
    session.handle(Event::Left);
    session.handle(Event::Left);
    session.handle(Event::Delete);
    assert_eq!(popup_text(&session), Some(("1.2.3".to_string(), 0)));
}

#[test]
fn editing_events_are_ignored_while_browsing() {
    let mut session = session_with(2);
    for event in [Event::Character('x'), Event::Delete, Event::Left, Event::Right, Event::Cancel] {
        assert_eq!(session.handle(event), Action::Continue);
        assert!(is_browsing(&session));
        assert_eq!(session.list.highlighted_index, Some(0));
    }
}

#[test]
fn field_that_is_not_edited_ignores_all_but_quit() {
    let mut session = session_with(1);
    session.handle(Event::Confirm);
    session.handle(Event::Character('7'));
    if let SessionMode::PopupOpen { field } = &mut session.mode {
        field.input_mode = InputMode::Normal;
    }
    assert!(!session.is_editing());
    for event in [Event::Character('x'), Event::Delete, Event::Left, Event::Confirm, Event::Cancel] {
        assert_eq!(session.handle(event), Action::Continue);
        assert_eq!(popup_text(&session), Some(("7".to_string(), 1)));
    }
    assert_eq!(session.handle(Event::Quit), Action::Continue);
    assert!(is_browsing(&session));
}

#[test]
fn confirm_with_empty_field_applies_empty_version() {
    let mut session = session_with(1);
    session.handle(Event::Confirm);
    assert_eq!(
        session.handle(Event::Confirm),
        Action::Apply { index: 0, new_version: String::new() }
    );
    assert!(is_browsing(&session));
}

#[test]
fn failed_apply_returns_to_browsing() {
    let mut session = session_with(1);
    session.handle(Event::Confirm);
    session.handle(Event::Character('2'));
    let action = session.handle(Event::Confirm);
    assert_eq!(action, Action::Apply { index: 0, new_version: "2".to_string() });
    session.finish_apply(Err(IoFailure::Unreadable));
    assert!(is_browsing(&session));
    assert_eq!(session.last_failure, Some(IoFailure::Unreadable));
    assert_eq!(session.handle(Event::NavigateDown), Action::Continue);
    assert_eq!(session.handle(Event::Confirm), Action::Continue);
    assert!(session.is_editing());
}

#[test]
fn successful_apply_clears_the_failure() {
    let mut session = session_with(1);
    session.finish_apply(Err(IoFailure::Unwritable));
    assert_eq!(session.last_failure, Some(IoFailure::Unwritable));
    session.finish_apply(Ok(()));
    assert_eq!(session.last_failure, None);
    assert!(is_browsing(&session));
}

#[test]
fn keys_while_browsing() {
    let session = session_with(1);
    assert_eq!(session.decode_key(Key::Char('q'), true), Some(Event::Quit));
    assert_eq!(session.decode_key(Key::Char('j'), true), Some(Event::NavigateDown));
    assert_eq!(session.decode_key(Key::Char('k'), true), Some(Event::NavigateUp));
    assert_eq!(session.decode_key(Key::Enter, true), Some(Event::Confirm));
    assert_eq!(session.decode_key(Key::Char('x'), true), None);
    assert_eq!(session.decode_key(Key::Esc, true), None);
    assert_eq!(session.decode_key(Key::Backspace, true), None);
    assert_eq!(session.decode_key(Key::Left, true), None);
    assert_eq!(session.decode_key(Key::Right, true), None);
    assert_eq!(session.decode_key(Key::Other, true), None);
}

#[test]
fn keys_while_editing() {
    let mut session = session_with(1);
    session.handle(Event::Confirm);
    assert_eq!(session.decode_key(Key::Char('q'), true), Some(Event::Character('q')));
    assert_eq!(session.decode_key(Key::Char('j'), true), Some(Event::Character('j')));
    assert_eq!(session.decode_key(Key::Char('9'), true), Some(Event::Character('9')));
    assert_eq!(session.decode_key(Key::Backspace, true), Some(Event::Delete));
    assert_eq!(session.decode_key(Key::Left, true), Some(Event::Left));
    assert_eq!(session.decode_key(Key::Right, true), Some(Event::Right));
    assert_eq!(session.decode_key(Key::Enter, true), Some(Event::Confirm));
    assert_eq!(session.decode_key(Key::Esc, true), Some(Event::Cancel));
    assert_eq!(session.decode_key(Key::Other, true), None);
}

#[test]
fn keys_that_are_not_pressed_mean_nothing() {
    let mut session = session_with(1);
    assert_eq!(session.decode_key(Key::Char('q'), false), None);
    assert_eq!(session.decode_key(Key::Enter, false), None);
    assert_eq!(session.handle_key(Key::Char('q'), false), Action::Continue);
    assert_eq!(session.handle_key(Key::Enter, false), Action::Continue);
    assert!(is_browsing(&session));
    session.handle(Event::Confirm);
    assert_eq!(session.handle_key(Key::Char('1'), false), Action::Continue);
    assert_eq!(popup_text(&session), Some((String::new(), 0)));
}

#[test]
fn handle_key_runs_a_whole_edit() {
    let mut session = session_with(2);
    assert_eq!(session.handle_key(Key::Char('j'), true), Action::Continue);
    assert_eq!(session.handle_key(Key::Enter, true), Action::Continue);
    for c in "3.q.1".chars() {
        assert_eq!(session.handle_key(Key::Char(c), true), Action::Continue);
    }
    assert_eq!(session.handle_key(Key::Left, true), Action::Continue);
    assert_eq!(session.handle_key(Key::Left, true), Action::Continue);
    assert_eq!(session.handle_key(Key::Backspace, true), Action::Continue);
    assert_eq!(session.handle_key(Key::Char('0'), true), Action::Continue);
    assert_eq!(
        session.handle_key(Key::Enter, true),
        Action::Apply { index: 1, new_version: "3.0.1".to_string() }
    );
    assert_eq!(session.handle_key(Key::Char('q'), true), Action::Exit);
}

#[test]
fn escape_closes_the_popup() {
    let mut session = session_with(1);
    session.handle_key(Key::Enter, true);
    session.handle_key(Key::Char('5'), true);
    assert_eq!(session.handle_key(Key::Esc, true), Action::Continue);
    assert!(is_browsing(&session));
}

#[test]
fn cursor_cell_follows_the_cursor() {
    let mut session = session_with(1);
    assert_eq!(session.cursor_cell(10, 4), None);
    session.handle(Event::Confirm);
    assert_eq!(session.cursor_cell(10, 4), Some((11, 5)));
    session.handle(Event::Character('1'));
    session.handle(Event::Character('é'));
    assert_eq!(session.cursor_cell(10, 4), Some((13, 5)));
    session.handle(Event::Left);
    assert_eq!(session.cursor_cell(10, 4), Some((12, 5)));
}

#[test]
fn cursor_cell_stops_at_the_last_cell() {
    let mut session = session_with(1);
    session.handle(Event::Confirm);
    session.handle(Event::Character('1'));
    assert_eq!(session.cursor_cell(u16::MAX, u16::MAX), Some((u16::MAX, u16::MAX)));
    assert_eq!(session.cursor_cell(u16::MAX - 1, 0), Some((u16::MAX, 1)));
    assert_eq!(session.cursor_cell(u16::MAX - 2, 0), Some((u16::MAX, 1)));
    assert_eq!(session.cursor_cell(u16::MAX - 3, 0), Some((u16::MAX - 1, 1)));
}

#[test]
fn cursor_cell_is_hidden_when_the_field_is_not_edited() {
    let mut session = session_with(1);
    session.handle(Event::Confirm);
    if let SessionMode::PopupOpen { field } = &mut session.mode {
        field.input_mode = InputMode::Normal;
    }
    assert_eq!(session.cursor_cell(3, 3), None);
}
