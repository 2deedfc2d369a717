use cargo_ws_manage::input::{resolve_string_input, trim_input, yes_no_answer, DefaultBool};

#[test]
fn trim_removes_surrounding_blank_space() {
    assert_eq!(trim_input("  hello \t\r\n"), "hello");
    assert_eq!(trim_input("core"), "core");
    assert_eq!(trim_input("   "), "");
    assert_eq!(trim_input(""), "");
    assert_eq!(trim_input(" two words \n"), "two words");
}

#[test]
fn blank_answer_follows_default_yes() {
    assert_eq!(yes_no_answer("", DefaultBool::YES), Some(true));
    assert_eq!(yes_no_answer("\n", DefaultBool::YES), Some(true));
    assert_eq!(yes_no_answer("   ", DefaultBool::YES), Some(true));
}

#[test]
fn blank_answer_follows_default_no() {
    assert_eq!(yes_no_answer("", DefaultBool::NO), Some(false));
    assert_eq!(yes_no_answer("\n", DefaultBool::NO), Some(false));
    assert_eq!(yes_no_answer("   ", DefaultBool::NO), Some(false));
}

#[test]
fn explicit_answers_beat_the_default() {
    assert_eq!(yes_no_answer("n", DefaultBool::YES), Some(false));
    assert_eq!(yes_no_answer(" N \n", DefaultBool::YES), Some(false));
    assert_eq!(yes_no_answer("y", DefaultBool::NO), Some(true));
    assert_eq!(yes_no_answer(" Y ", DefaultBool::NO), Some(true));
}

#[test]
fn anything_else_counts_as_the_default() {
    assert_eq!(yes_no_answer("yes", DefaultBool::YES), Some(true));
    assert_eq!(yes_no_answer("no", DefaultBool::YES), Some(true));
    assert_eq!(yes_no_answer("yes", DefaultBool::NO), Some(false));
    assert_eq!(yes_no_answer("maybe", DefaultBool::NO), Some(false));
}

#[test]
fn without_default_only_y_or_n_decide() {
    assert_eq!(yes_no_answer("y", DefaultBool::NoDefault), Some(true));
    assert_eq!(yes_no_answer(" Y\n", DefaultBool::NoDefault), Some(true));
    assert_eq!(yes_no_answer("n", DefaultBool::NoDefault), Some(false));
    assert_eq!(yes_no_answer("N", DefaultBool::NoDefault), Some(false));
    assert_eq!(yes_no_answer("", DefaultBool::NoDefault), None);
    assert_eq!(yes_no_answer("maybe", DefaultBool::NoDefault), None);
    assert_eq!(yes_no_answer("yes", DefaultBool::NoDefault), None);
}

#[test]
fn empty_without_default_is_asked_again() {
    assert_eq!(resolve_string_input("", &None, false), None);
    assert_eq!(resolve_string_input("   \n", &None, false), None);
    assert_eq!(resolve_string_input("core", &None, false), Some("core".to_string()));
}

#[test]
fn empty_resolves_to_the_default() {
    let default = Some("demo".to_string());
    assert_eq!(resolve_string_input("", &default, false), Some("demo".to_string()));
    assert_eq!(resolve_string_input("\n", &default, true), Some("demo".to_string()));
    assert_eq!(resolve_string_input("other", &default, false), Some("other".to_string()));
}

#[test]
fn empty_allowed_resolves_to_empty() {
    assert_eq!(resolve_string_input("", &None, true), Some(String::new()));
    assert_eq!(resolve_string_input("  word  ", &None, true), Some("word".to_string()));
}
