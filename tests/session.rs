use fsh::history::History;
use fsh::session::{Action, EditSession, Key, Mode};

fn store_of(commands: &[&str]) -> History {
    let mut h = History::new(None);
    for c in commands {
        h.add_command(c.to_string());
    }
    h
}

fn type_text(s: &mut EditSession, h: &mut History, text: &str) {
    for c in text.chars() {
        s.handle_key(Key::Char(c), h);
    }
}

#[test]
fn typing_and_enter_appends_to_history() {
    let mut h = History::new(None);
    let mut s = EditSession::new();
    assert_eq!(s.handle_key(Key::Char('l'), &mut h), Action::Redraw);
    assert_eq!(s.handle_key(Key::Char('s'), &mut h), Action::Redraw);
    assert_eq!(s.line(), "ls");
    assert_eq!(s.handle_key(Key::Enter, &mut h), Action::Execute(String::from("ls")));
    assert_eq!(h.get(0), Some(&String::from("ls")));
    assert_eq!(s.line(), "");
    assert_eq!(s.cursor_index(), 0);
    assert_eq!(s.history_index(), -1);
}

#[test]
fn enter_on_empty_line() {
    let mut h = History::new(None);
    let mut s = EditSession::new();
    assert_eq!(s.handle_key(Key::Enter, &mut h), Action::NewPrompt);
    assert_eq!(h.len(), 0);
}

#[test]
fn reverse_search_then_tab_adopts_match() {
    let mut h = store_of(&["cat file.txt", "ls -l"]);
    let mut s = EditSession::new();
    assert_eq!(s.handle_key(Key::Ctrl('r'), &mut h), Action::RedrawSearch);
    assert_eq!(s.current_mode(), Mode::ReverseSearch);
    assert_eq!(s.selected_match(), None);
    assert_eq!(s.handle_key(Key::Char('l'), &mut h), Action::RedrawSearch);
    assert_eq!(s.selected_match(), Some(&String::from("ls -l")));
    assert_eq!(s.match_rest(), "s -l");
    assert_eq!(s.handle_key(Key::Tab, &mut h), Action::Redraw);
    assert_eq!(s.line(), "ls -l");
    assert_eq!(s.cursor_index(), 5);
    assert_eq!(s.current_mode(), Mode::Normal);
}

#[test]
fn enter_in_search_submits_typed_text() {
    let mut h = store_of(&["ls -l"]);
    let mut s = EditSession::new();
    s.handle_key(Key::Ctrl('r'), &mut h);
    type_text(&mut s, &mut h, "l");
    assert_eq!(s.handle_key(Key::Enter, &mut h), Action::Execute(String::from("l")));
    assert_eq!(s.current_mode(), Mode::Normal);
    assert_eq!(h.get(0), Some(&String::from("l")));
}

#[test]
fn search_moves_between_matches() {
    let mut h = store_of(&["ls a", "ls b", "ls c"]);
    let mut s = EditSession::new();
    type_text(&mut s, &mut h, "ls");
    s.handle_key(Key::Ctrl('r'), &mut h);
    assert_eq!(s.selected_match(), Some(&String::from("ls c")));
    assert_eq!(s.handle_key(Key::Down, &mut h), Action::Ignore);
    s.handle_key(Key::Up, &mut h);
    s.handle_key(Key::Up, &mut h);
    assert_eq!(s.selected_match(), Some(&String::from("ls a")));
    assert_eq!(s.handle_key(Key::Up, &mut h), Action::RedrawSearch);
    assert_eq!(s.selected_match(), Some(&String::from("ls a")));
    assert_eq!(s.handle_key(Key::Down, &mut h), Action::RedrawSearch);
    assert_eq!(s.selected_match(), Some(&String::from("ls b")));
}

#[test]
fn backspace_in_search_recomputes() {
    let mut h = store_of(&["abc", "xyz"]);
    let mut s = EditSession::new();
    s.handle_key(Key::Ctrl('r'), &mut h);
    type_text(&mut s, &mut h, "ax");
    assert_eq!(s.selected_match(), None);
    assert_eq!(s.handle_key(Key::Backspace, &mut h), Action::RedrawSearch);
    assert_eq!(s.line(), "a");
    assert_eq!(s.selected_match(), Some(&String::from("abc")));
}

#[test]
fn tab_in_search_without_match_is_ignored() {
    let mut h = store_of(&["abc"]);
    let mut s = EditSession::new();
    s.handle_key(Key::Ctrl('r'), &mut h);
    type_text(&mut s, &mut h, "z");
    assert_eq!(s.handle_key(Key::Tab, &mut h), Action::Ignore);
    assert_eq!(s.current_mode(), Mode::ReverseSearch);
}

#[test]
fn history_browsing_with_up_and_down() {
    let mut h = store_of(&["first", "second"]);
    let mut s = EditSession::new();
    assert_eq!(s.handle_key(Key::Up, &mut h), Action::Redraw);
    assert_eq!(s.line(), "second");
    assert_eq!(s.history_index(), 0);
    s.handle_key(Key::Up, &mut h);
    assert_eq!(s.line(), "first");
    assert_eq!(s.handle_key(Key::Up, &mut h), Action::Ignore);
    assert_eq!(s.line(), "first");
    assert_eq!(s.history_index(), 1);
    s.handle_key(Key::Down, &mut h);
    assert_eq!(s.line(), "second");
    assert_eq!(s.cursor_index(), 6);
    s.handle_key(Key::Down, &mut h);
    assert_eq!(s.line(), "");
    assert_eq!(s.history_index(), -1);
}

#[test]
fn interrupt_and_eof() {
    let mut h = History::new(None);
    let mut s = EditSession::new();
    type_text(&mut s, &mut h, "abc");
    s.handle_key(Key::Ctrl('r'), &mut h);
    assert_eq!(s.handle_key(Key::Ctrl('c'), &mut h), Action::Interrupted);
    assert_eq!(s.line(), "");
    assert_eq!(s.current_mode(), Mode::Normal);
    type_text(&mut s, &mut h, "x");
    assert_eq!(s.handle_key(Key::Ctrl('d'), &mut h), Action::Exit);
    assert_eq!(s.line(), "x");
    assert_eq!(s.handle_key(Key::Ctrl('z'), &mut h), Action::Ignore);
    assert_eq!(s.handle_key(Key::Other, &mut h), Action::Ignore);
}

#[test]
fn left_right_and_insert_in_the_middle() {
    let mut h = History::new(None);
    let mut s = EditSession::new();
    type_text(&mut s, &mut h, "ac");
    assert_eq!(s.handle_key(Key::Left, &mut h), Action::MoveCursor);
    s.handle_key(Key::Char('b'), &mut h);
    assert_eq!(s.line(), "abc");
    assert_eq!(s.cursor_index(), 2);
    s.handle_key(Key::Right, &mut h);
    s.handle_key(Key::Right, &mut h);
    assert_eq!(s.cursor_index(), 3);
    assert_eq!(s.cursor_column(7), Some(10));
}

#[test]
fn tab_requests_completion_of_token() {
    let mut h = History::new(None);
    let mut s = EditSession::new();
    type_text(&mut s, &mut h, "cat src/ma");
    assert_eq!(s.handle_key(Key::Tab, &mut h), Action::Complete(String::from("src/ma")));
    assert_eq!(s.complete(&vec![]), Action::Ignore);
    assert_eq!(s.line(), "cat src/ma");
    let many = vec![String::from("src/main.rs"), String::from("src/map.rs")];
    assert_eq!(s.complete(&many), Action::ListCandidates);
    assert_eq!(s.line(), "cat src/ma");
    assert_eq!(s.complete(&vec![String::from("src/main.rs")]), Action::Redraw);
    assert_eq!(s.line(), "cat src/main.rs");
    assert_eq!(s.cursor_index(), 15);
}

#[test]
fn completion_inserts_at_cursor() {
    let mut h = History::new(None);
    let mut s = EditSession::new();
    type_text(&mut s, &mut h, "ab cd");
    s.handle_key(Key::Left, &mut h);
    s.handle_key(Key::Left, &mut h);
    s.handle_key(Key::Left, &mut h);
    assert_eq!(s.handle_key(Key::Tab, &mut h), Action::Complete(String::from("ab")));
    s.complete(&vec![String::from("abxy")]);
    assert_eq!(s.line(), "abxy cd");
    assert_eq!(s.cursor_index(), 4);
}
