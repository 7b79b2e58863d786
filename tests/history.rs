use fsh::history::{parse_lines, History, HISTORY_CAPACITY};

fn store_of(commands: &[&str]) -> History {
    let mut h = History::new(None);
    for c in commands {
        h.add_command(c.to_string());
    }
    h
}

#[test]
fn capacity_keeps_the_newest_entries() {
    let mut h = History::new(None);
    let extra = 5;
    for i in 0..HISTORY_CAPACITY + extra {
        h.add_command(format!("cmd{}", i));
    }
    assert_eq!(h.len(), HISTORY_CAPACITY);
    for offset in 0..HISTORY_CAPACITY {
        let expected = format!("cmd{}", HISTORY_CAPACITY + extra - 1 - offset);
        assert_eq!(h.get(offset), Some(&expected));
    }
    assert_eq!(h.get(HISTORY_CAPACITY), None);
}

#[test]
fn blank_search_matches_nothing() {
    let h = store_of(&["ls", "  ", "echo hi"]);
    assert!(h.search(&String::from("")).is_empty());
    assert!(h.search(&String::from("   ")).is_empty());
    assert!(h.search(&String::from("\t")).is_empty());
}

#[test]
fn search_returns_newest_first() {
    let h = store_of(&["abc", "abd", "xyz"]);
    assert_eq!(h.search(&String::from("ab")), vec!["abd".to_string(), "abc".to_string()]);
    assert_eq!(h.search(&String::from("x")), vec!["xyz".to_string()]);
    assert!(h.search(&String::from("q")).is_empty());
}

#[test]
fn search_keeps_duplicates() {
    let h = store_of(&["ls", "pwd", "ls"]);
    assert_eq!(h.search(&String::from("l")), vec!["ls".to_string(), "ls".to_string()]);
}

#[test]
fn save_and_load_round_trip() {
    let h = store_of(&["ls", "pwd"]);
    let text = h.save_text();
    assert_eq!(text, "ls\npwd");
    let loaded = History::load(Some(String::from("/tmp/history")), &text);
    assert_eq!(loaded.get(0), Some(&String::from("pwd")));
    assert_eq!(loaded.get(1), Some(&String::from("ls")));
    assert_eq!(loaded.get(2), None);
    assert_eq!(loaded.history_file_path(), Some(&String::from("/tmp/history")));
}

#[test]
fn get_on_empty_store() {
    let h = History::new(None);
    assert_eq!(h.get(0), None);
    assert_eq!(h.len(), 0);
    assert_eq!(h.save_text(), "");
    assert_eq!(h.history_file_path(), None);
}

#[test]
fn elements_oldest_first() {
    let h = store_of(&["a", "b", "c"]);
    let all: Vec<&String> = h.get_history_elements();
    assert_eq!(all, vec!["a", "b", "c"]);
}

#[test]
fn lines_of_history_text() {
    assert_eq!(parse_lines("a\r\nb\n\nc\n"), vec!["a", "b", "", "c"]);
    assert_eq!(parse_lines("one\ntwo"), vec!["one", "two"]);
    assert!(parse_lines("").is_empty());
    assert_eq!(parse_lines("\n"), vec![""]);
    assert_eq!(parse_lines("x\r"), vec!["x\r"]);
}

#[test]
fn load_evicts_beyond_capacity() {
    let mut text = String::new();
    for i in 0..HISTORY_CAPACITY + 3 {
        text.push_str(&format!("line{}\n", i));
    }
    let h = History::load(None, &text);
    assert_eq!(h.len(), HISTORY_CAPACITY);
    assert_eq!(h.get(0), Some(&format!("line{}", HISTORY_CAPACITY + 2)));
    assert_eq!(h.get(HISTORY_CAPACITY - 1), Some(&String::from("line3")));
}

#[test]
fn empty_command_is_stored() {
    let h = store_of(&[""]);
    assert_eq!(h.get(0), Some(&String::new()));
}
