use lib::execute::{execute_line, str_find, str_split_once, str_starts_with, trim_str, LineOutput};
use lib::table::Table;

fn show(out: &LineOutput) -> String {
    match out {
        LineOutput::Silent => "silent".to_string(),
        LineOutput::PrintLine(s) => format!("println {}", s),
        LineOutput::Print(s) => format!("print {}", s),
        LineOutput::InvalidVariable { line } => format!("Line {}: Invalid variable syntax", line),
        LineOutput::InvalidCondition { line } => format!("Line {}: Invalid condition syntax", line),
        LineOutput::UnknownCommand { line, command } => format!("Line {}: Unknown command '{}'", line, command),
    }
}

struct Session {
    variables: Table<String>,
    last_if: bool,
    line: usize,
}

impl Session {
    fn new() -> Session {
        Session { variables: Table::new(), last_if: false, line: 0 }
    }

    fn exec(&mut self, text: &str) -> String {
        self.line += 1;
        let out = execute_line(text, &mut self.variables, self.line, &mut self.last_if);
        show(&out)
    }

    fn var(&self, name: &str) -> Option<String> {
        self.variables.get(&name.to_string()).cloned()
    }
}

#[test]
fn blank_lines_and_comments_do_nothing() {
    let mut s = Session::new();
    assert_eq!(s.exec(""), "silent");
    assert_eq!(s.exec("   \t  "), "silent");
    assert_eq!(s.exec(":) a comment"), "silent");
    assert_eq!(s.exec("   :)"), "silent");
    assert!(!s.last_if);
}

#[test]
fn say_line_shows_variable_or_text() {
    let mut s = Session::new();
    assert_eq!(s.exec("cow_sayln! hello"), "println hello");
    assert_eq!(s.exec("cook hello = world"), "silent");
    assert_eq!(s.exec("cow_sayln! hello"), "println world");
    assert_eq!(s.exec("  cow_sayln!    hello   "), "println world");
}

#[test]
fn say_without_line_break() {
    let mut s = Session::new();
    assert_eq!(s.exec("cow_say! two words"), "print two words");
    s.exec("cook x=1");
    assert_eq!(s.exec("cow_say! x"), "print 1");
}

#[test]
fn say_needs_the_space_after_the_bang() {
    let mut s = Session::new();
    assert_eq!(s.exec("cow_sayln!x"), "Line 1: Unknown command 'cow_sayln!x'");
    assert_eq!(s.exec("cow_sayln!"), "Line 2: Unknown command 'cow_sayln!'");
}

#[test]
fn cook_binds_trimmed_name_to_trimmed_value() {
    let mut s = Session::new();
    assert_eq!(s.exec("cook  name   =   some value  "), "silent");
    assert_eq!(s.var("name"), Some("some value".to_string()));
    assert_eq!(s.exec("cook name = other"), "silent");
    assert_eq!(s.var("name"), Some("other".to_string()));
}

#[test]
fn cook_splits_at_the_first_equal_sign() {
    let mut s = Session::new();
    s.exec("cook a = b = c");
    assert_eq!(s.var("a"), Some("b = c".to_string()));
}

#[test]
fn cook_without_equal_sign_is_invalid() {
    let mut s = Session::new();
    s.exec(":)");
    assert_eq!(s.exec("cook nothing here"), "Line 2: Invalid variable syntax");
    assert_eq!(s.var("nothing here"), None);
}

#[test]
fn sus_compares_value_of_left_with_right_text() {
    let mut s = Session::new();
    s.exec("cook mood = happy");
    assert_eq!(s.exec("sus mood == happy"), "silent");
    assert!(s.last_if);
    s.exec("sus mood == sad");
    assert!(!s.last_if);
    s.exec("sus happy == happy");
    assert!(s.last_if);
    s.exec("sus  x==y ");
    assert!(!s.last_if);
}

#[test]
fn sus_without_double_equal_is_invalid_and_keeps_last_result() {
    let mut s = Session::new();
    s.exec("sus a == a");
    assert!(s.last_if);
    assert_eq!(s.exec("sus a = a"), "Line 2: Invalid condition syntax");
    assert!(s.last_if);
}

#[test]
fn unknown_command_is_reported_trimmed() {
    let mut s = Session::new();
    assert_eq!(s.exec("  dance now  "), "Line 1: Unknown command 'dance now'");
    assert_eq!(s.exec("cook"), "Line 2: Unknown command 'cook'");
}

#[test]
fn unicode_whitespace_is_trimmed() {
    let mut s = Session::new();
    assert_eq!(s.exec("\u{3000}cow_sayln! hi\u{a0}"), "println hi");
    assert_eq!(trim_str("\u{2003}\n x \u{85}"), "x");
}

#[test]
fn cook_then_say_gives_back_the_value() {
    let mut s = Session::new();
    s.exec("cook pet=  cat");
    assert_eq!(s.exec("cow_sayln! pet"), "println cat");
    assert!(!s.last_if);
}

#[test]
fn only_cook_changes_variables() {
    let mut s = Session::new();
    s.exec("cook a = 1");
    for line in ["cow_sayln! a", "cow_say! a", "sus a == 1", "wat", ":) cook a = 2", ""] {
        s.exec(line);
        assert_eq!(s.var("a"), Some("1".to_string()));
    }
}

#[test]
fn string_helpers() {
    assert_eq!(trim_str("  a b  "), "a b");
    assert_eq!(trim_str("   "), "");
    assert!(str_starts_with("cook x", "cook "));
    assert!(!str_starts_with("coo", "cook "));
    assert_eq!(str_find("a==b==c", "=="), Some(1));
    assert_eq!(str_find("abc", "=="), None);
    assert_eq!(str_find("ab", "abc"), None);
    assert_eq!(str_split_once("x = y", "="), Some(("x ", " y")));
    assert_eq!(str_split_once("x", "="), None);
    assert_eq!(str_split_once("é=ü", "="), Some(("é", "ü")));
}
