use fsh::command::{command_kind, echo_line, split_command_line, CommandKind};
use fsh::completion::{argument_pattern, completion_pattern};
use fsh::prompt::{home_pattern, prompt_min_column, shorten_home};

#[test]
fn completion_patterns() {
    assert_eq!(completion_pattern("src/ma"), "./src/ma*");
    assert_eq!(completion_pattern("/usr/b"), "/usr/b*");
    assert_eq!(completion_pattern("*.rs"), "./*.rs");
    assert_eq!(completion_pattern(""), "./*");
}

#[test]
fn argument_patterns() {
    assert_eq!(argument_pattern("notes.txt"), None);
    assert_eq!(argument_pattern("*.mp3"), Some(String::from("./*.mp3")));
    assert_eq!(argument_pattern("/tmp/*.log"), Some(String::from("/tmp/*.log")));
}

#[test]
fn command_line_fields() {
    assert_eq!(split_command_line("ls -l"), vec!["ls", "-l"]);
    assert_eq!(split_command_line("ls  -l\tx"), vec!["ls", "", "-l", "x"]);
    assert_eq!(split_command_line(""), vec![""]);
}

#[test]
fn builtins_are_recognised() {
    assert_eq!(command_kind("pwd"), CommandKind::Pwd);
    assert_eq!(command_kind("cd"), CommandKind::Cd);
    assert_eq!(command_kind("echo"), CommandKind::Echo);
    assert_eq!(command_kind("exit"), CommandKind::Exit);
    assert_eq!(command_kind("history"), CommandKind::History);
    assert_eq!(command_kind("ls"), CommandKind::External);
    assert_eq!(command_kind("pwdx"), CommandKind::External);
}

#[test]
fn echo_joins_with_spaces() {
    assert_eq!(echo_line(&vec![String::from("a"), String::from("b c")]), "a b c");
    assert_eq!(echo_line(&vec![]), "");
}

#[test]
fn home_is_shortened_in_prompt() {
    assert_eq!(home_pattern("bob"), "/home/bob/|/home/bob");
    assert_eq!(shorten_home("/home/bob/src", "bob"), "\u{2302}|src");
    assert_eq!(shorten_home("/home/bob", "bob"), "\u{2302}|");
    assert_eq!(shorten_home("/tmp", "bob"), "/tmp");
    assert_eq!(shorten_home("/tmp/x", "a(b"), "/tmp/x");
}

#[test]
fn prompt_column() {
    assert_eq!(prompt_min_column("\u{2302}|src"), Some(8));
    assert_eq!(prompt_min_column(""), Some(3));
}
