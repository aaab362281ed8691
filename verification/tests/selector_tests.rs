use goto::selector::{Action, App, Direction, Key};

fn three_paths() -> Vec<String> {
    vec!["/a".to_string(), "/b".to_string(), "/c".to_string()]
}

#[test]
fn new_non_empty_selects_top() {
    let app = App::new(three_paths());
    assert_eq!(app.selected, Some(0));
    assert_eq!(app.exit, false);
    assert_eq!(app.paths, three_paths());
    assert!(app.search.is_empty());
}

#[test]
fn new_empty_selects_nothing() {
    let app = App::new(Vec::new());
    assert_eq!(app.selected, None);
    assert_eq!(app.exit, false);
}

#[test]
fn down_visits_every_index_once_and_cycles() {
    let mut app = App::new(three_paths());
    let mut seen = Vec::new();
    seen.push(app.selected.unwrap());
    for _ in 0..2 {
        app.move_selection(Direction::Down);
        seen.push(app.selected.unwrap());
    }
    let mut sorted = seen.clone();
    sorted.sort();
    assert_eq!(sorted, vec![0, 1, 2]);
    app.move_selection(Direction::Down);
    assert_eq!(app.selected, Some(0));
}

#[test]
fn up_wraps_and_inverts_down() {
    let mut app = App::new(three_paths());
    app.move_selection(Direction::Up);
    assert_eq!(app.selected, Some(2));
    app.move_selection(Direction::Down);
    app.move_selection(Direction::Up);
    assert_eq!(app.selected, Some(2));
    app.move_selection(Direction::Down);
    assert_eq!(app.selected, Some(0));
}

#[test]
fn move_on_empty_list_is_a_no_op() {
    let mut app = App::new(Vec::new());
    app.move_selection(Direction::Down);
    assert_eq!(app.selected, None);
    app.move_selection(Direction::Up);
    assert_eq!(app.selected, None);
}

#[test]
fn query_edits_reset_selection_to_top() {
    let mut app = App::new(three_paths());
    app.move_selection(Direction::Down);
    assert_eq!(app.selected, Some(1));
    app.append_char('a');
    assert_eq!(app.selected, Some(0));
    app.move_selection(Direction::Down);
    app.remove_last_char();
    assert_eq!(app.selected, Some(0));
    // a no-op removal on an empty query still resets the selection
    let mut fresh = App::new(three_paths());
    fresh.move_selection(Direction::Down);
    fresh.remove_last_char();
    assert_eq!(fresh.selected, Some(0));
}

#[test]
fn query_edits_keep_the_same_candidates() {
    let mut app = App::new(three_paths());
    app.append_char('b');
    app.append_char('z');
    app.remove_last_char();
    let mut sorted = app.paths.clone();
    sorted.sort();
    assert_eq!(sorted, three_paths());
    assert_eq!(app.search, vec!['b']);
}

#[test]
fn confirm_on_empty_yields_sentinel() {
    let mut app = App::new(Vec::new());
    let r = app.confirm();
    assert_eq!(r, ".");
    assert!(app.exit);
}

#[test]
fn confirm_yields_highlighted_path() {
    let mut app = App::new(three_paths());
    app.move_selection(Direction::Down);
    let r = app.confirm();
    assert_eq!(r, "/b");
    assert!(app.exit);
}

#[test]
fn cancel_sets_exit_and_keeps_state() {
    let mut app = App::new(three_paths());
    app.move_selection(Direction::Down);
    app.cancel();
    assert!(app.exit);
    assert_eq!(app.selected, Some(1));
    assert_eq!(app.paths, three_paths());
}

#[test]
fn session_navigates_and_confirms() {
    // store ["/a","/b","/c"]: Down, Down, Down wraps to "/a", Up wraps to
    // "/c", Enter emits "/c"
    let mut app = App::new(three_paths());
    assert_eq!(app.selected, Some(0));
    assert!(matches!(app.handle_key(Key::Down), Action::Idle));
    assert_eq!(app.selected, Some(1));
    assert!(matches!(app.handle_key(Key::Down), Action::Idle));
    assert_eq!(app.selected, Some(2));
    assert!(matches!(app.handle_key(Key::Down), Action::Idle));
    assert_eq!(app.selected, Some(0));
    assert!(matches!(app.handle_key(Key::Up), Action::Idle));
    assert_eq!(app.selected, Some(2));
    let a = app.handle_key(Key::Enter);
    match a {
        Action::Emit(p) => assert_eq!(p, "/c"),
        _ => panic!("expected the confirmed path"),
    }
    assert!(app.exit);
}

#[test]
fn session_on_empty_store_emits_sentinel() {
    let mut app = App::new(Vec::new());
    assert_eq!(app.selected, None);
    assert!(matches!(app.handle_key(Key::Down), Action::Idle));
    assert_eq!(app.selected, None);
    let a = app.handle_key(Key::Enter);
    match a {
        Action::Emit(p) => assert_eq!(p, "."),
        _ => panic!("expected the sentinel"),
    }
    assert!(app.exit);
}

#[test]
fn typing_ranks_best_match_to_top() {
    // 'b' matches "/b" best, so one keystroke and Enter select it with no
    // arrow keys; this fails if ranking left the store order untouched
    let mut app = App::new(three_paths());
    assert!(matches!(app.handle_key(Key::Char('b')), Action::Idle));
    assert_eq!(app.selected, Some(0));
    assert_eq!(app.paths[0], "/b");
    let a = app.handle_key(Key::Enter);
    match a {
        Action::Emit(p) => assert_eq!(p, "/b"),
        _ => panic!("expected the confirmed path"),
    }
}

#[test]
fn escape_exits_without_emitting() {
    let mut app = App::new(three_paths());
    let a = app.handle_key(Key::Esc);
    assert!(matches!(a, Action::Idle));
    assert!(app.exit);
    assert_eq!(app.paths, three_paths());
}

#[test]
fn tab_requests_store_editing_and_keeps_state() {
    let mut app = App::new(three_paths());
    app.move_selection(Direction::Down);
    let a = app.handle_key(Key::Tab);
    assert!(matches!(a, Action::OpenStore));
    assert_eq!(app.selected, Some(1));
    assert!(!app.exit);
}

#[test]
fn unrecognized_keys_do_nothing() {
    let mut app = App::new(three_paths());
    let a = app.handle_key(Key::Other);
    assert!(matches!(a, Action::Idle));
    assert_eq!(app.selected, Some(0));
    assert!(app.search.is_empty());
    assert!(!app.exit);
}
