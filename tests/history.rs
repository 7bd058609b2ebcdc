use lambdashell::history::{parse_history, History};

fn strings(v: &[&str]) -> Vec<String> {
    v.iter().map(|s| s.to_string()).collect()
}

fn fresh() -> History {
    History::init(Some("/tmp/h".to_string()), Some(Vec::new()))
}

#[test]
fn add_keeps_distinct_consecutive_commands() {
    let mut h = fresh();
    h.add("ls");
    h.add("pwd");
    assert_eq!(h.entries(), &strings(&["ls", "pwd"]));
}

#[test]
fn add_suppresses_consecutive_duplicate() {
    let mut h = fresh();
    h.add("ls");
    h.add("ls");
    assert_eq!(h.entries(), &strings(&["ls"]));
}

#[test]
fn add_keeps_non_consecutive_duplicate() {
    let mut h = fresh();
    h.add("ls");
    h.add("pwd");
    h.add("ls");
    assert_eq!(h.entries(), &strings(&["ls", "pwd", "ls"]));
}

#[test]
fn is_empty_follows_snapshot() {
    assert!(History::init(None, Some(Vec::new())).is_empty());
    assert!(!History::init(None, Some(strings(&["a"]))).is_empty());
}

#[test]
fn is_empty_when_store_unreadable() {
    assert!(History::init(Some("/tmp/h".to_string()), None).is_empty());
}

#[test]
fn pending_write_empty_store_has_no_separator() {
    let mut h = fresh();
    h.add("ls");
    h.add("cd /");
    assert_eq!(h.pending_write(), Some("ls\ncd /".to_string()));
}

#[test]
fn pending_write_non_empty_store_starts_with_separator() {
    let mut h = History::init(Some("/tmp/h".to_string()), Some(strings(&["old"])));
    h.add("ls");
    assert_eq!(h.pending_write(), Some("\nls".to_string()));
}

#[test]
fn pending_write_nothing_without_commands_or_file() {
    assert_eq!(fresh().pending_write(), None);
    let mut h = History::init(None, Some(Vec::new()));
    h.add("ls");
    assert_eq!(h.pending_write(), None);
    assert_eq!(h.file(), None);
}

#[test]
fn parse_history_splits_lines() {
    assert_eq!(parse_history(""), Vec::<String>::new());
    assert_eq!(parse_history("a\nb"), strings(&["a", "b"]));
    assert_eq!(parse_history("a\nb\n"), strings(&["a", "b"]));
    assert_eq!(parse_history("a\n\nb"), strings(&["a", "", "b"]));
}

#[test]
fn history_round_trip_from_empty_store() {
    let before = "";
    let mut h = History::init(Some("/tmp/h".to_string()), Some(parse_history(before)));
    for c in ["ls", "ls", "pwd", "echo hi", "echo hi", "ls"] {
        h.add(c);
    }
    let after = format!("{}{}", before, h.pending_write().unwrap());
    assert_eq!(parse_history(&after), strings(&["ls", "pwd", "echo hi", "ls"]));
}

#[test]
fn history_round_trip_after_earlier_session() {
    let before = "make\ncargo test";
    let mut h = History::init(Some("/tmp/h".to_string()), Some(parse_history(before)));
    h.add("git status");
    h.add("git status");
    h.add("exit now");
    let after = format!("{}{}", before, h.pending_write().unwrap());
    assert_eq!(
        parse_history(&after),
        strings(&["make", "cargo test", "git status", "exit now"])
    );
}
