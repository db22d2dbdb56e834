use calm::errors::ErrorKind;
use calm::pattern::{MatchFields, Pattern};

fn field(m: &MatchFields, key: &str) -> Option<String> {
    m.get(key)
}

#[test]
fn regex_form_with_flags_is_case_insensitive() {
    let p = Pattern::from_config("/^abc$/i").unwrap();
    match &p {
        Pattern::Regex(r) => assert_eq!(r.as_str(), "(?i)^abc$"),
        Pattern::Glob(_) => panic!("expected a regular expression"),
    }
    assert!(p.match_path("ABC"));
    assert!(!p.match_path("abd"));
}

#[test]
fn regex_form_without_flags_keeps_body() {
    let p = Pattern::from_config("  /a/b/  ").unwrap();
    match &p {
        Pattern::Regex(r) => assert_eq!(r.as_str(), "a/b"),
        Pattern::Glob(_) => panic!("expected a regular expression"),
    }
}

#[test]
fn other_text_is_a_glob() {
    let p = Pattern::from_config("*.py").unwrap();
    match &p {
        Pattern::Glob(g) => assert_eq!(g.as_str(), "*.py"),
        Pattern::Regex(_) => panic!("expected a glob"),
    }
    assert!(p.match_path("a.py"));
    assert!(!p.match_path("a.rs"));
    // a slash with a non-letter suffix is no regular expression
    assert!(matches!(Pattern::from_config("/a/1").unwrap(), Pattern::Glob(_)));
}

#[test]
fn empty_pattern_is_refused() {
    let e = Pattern::from_config("").err().unwrap();
    assert_eq!(e.kind, ErrorKind::Configuration);
}

#[test]
fn bad_regex_is_a_data_error() {
    let e = Pattern::from_config("/(/").err().unwrap();
    assert_eq!(e.kind, ErrorKind::Data);
}

#[test]
fn bad_glob_is_a_configuration_error() {
    let e = Pattern::from_config("a[").err().unwrap();
    assert_eq!(e.kind, ErrorKind::Configuration);
}

#[test]
fn named_groups_that_took_part_are_the_fields() {
    let p = Pattern::from_config("/(?P<a>x)?(?P<b>y)/").unwrap();
    let m = p.match_str("zy").unwrap();
    assert_eq!(m.len(), 1);
    assert_eq!(field(&m, "b"), Some("y".to_string()));
    assert_eq!(field(&m, "a"), None);
    let m = p.match_str("xy").unwrap();
    assert_eq!(m.len(), 2);
    assert_eq!(field(&m, "a"), Some("x".to_string()));
}

#[test]
fn no_match_gives_no_fields() {
    let p = Pattern::from_config("/(?P<a>x)/").unwrap();
    assert!(p.match_str("zzz").is_none());
}

#[test]
fn glob_line_match_has_no_fields() {
    let p = Pattern::from_config("warn*").unwrap();
    let m = p.match_str("warning: x").unwrap();
    assert_eq!(m.len(), 0);
    assert!(p.match_str("error").is_none());
}

#[test]
fn fields_from_groups_leave_out_absent_groups() {
    let m = MatchFields::from_groups(vec![
        ("a".to_string(), None),
        ("b".to_string(), Some("1".to_string())),
    ]);
    assert_eq!(m.len(), 1);
    assert_eq!(m.get("b"), Some("1".to_string()));
}
