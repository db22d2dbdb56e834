use calm::errors::ErrorKind;
use calm::order::compare_results;
use calm::pattern::{MatchFields, Pattern};
use calm::render::{excerpt, relative_to, summary_line};
use calm::report::{Format, Level, LintResult, Report};
use calm::vars::join;

fn result(file: Option<&str>, line: u64, code: Option<&str>, level: Level) -> LintResult {
    LintResult {
        filename: file.map(|f| f.to_string()),
        line,
        column: 0,
        code: code.map(|c| c.to_string()),
        message: Some("msg".to_string()),
        level,
    }
}

fn views(r: &Report) -> Vec<(Option<String>, u64, Option<String>)> {
    r.results().iter().map(|x| (x.filename.clone(), x.line, x.code.clone())).collect()
}

#[test]
fn scenario_regex_step_line() {
    let p = Pattern::from_config(r"/^(?P<filename>\S+):(?P<line>\d+): (?P<message>.+)$/").unwrap();
    let m = p.match_str("src/x.py:10: unused variable").unwrap();
    let res = LintResult::from_match(&m).unwrap();
    assert_eq!(res.filename.as_deref(), Some("src/x.py"));
    assert_eq!(res.line, 10);
    assert_eq!(res.column, 0);
    assert_eq!(res.level, Level::Error);
    assert_eq!(res.message.as_deref(), Some("unused variable"));
    assert_eq!(join("/project", res.filename.as_deref().unwrap()), "/project/src/x.py");
    let mut r = Report::new();
    r.add_match_lint_result("flake", &m).unwrap();
    assert_eq!(r.error_count(), 1);
    assert!(r.has_errors());
    r.add_resolved_match("flake", &m, "/project/src/x.py".to_string()).unwrap();
    assert_eq!(r.results()[1].filename.as_deref(), Some("/project/src/x.py"));
    assert_eq!(r.results()[1].line, 10);
    assert_eq!(r.error_count(), 2);
}

#[test]
fn scenario_json_warning() {
    let mut r = Report::new();
    let res = LintResult {
        filename: Some("a.py".to_string()),
        line: 3,
        column: 5,
        code: None,
        message: Some("bad style".to_string()),
        level: Level::from_name("warning"),
    };
    r.add_lint_result("tool", res);
    assert_eq!(r.warnings_count(), 1);
    assert_eq!(r.error_count(), 0);
    assert!(!r.has_errors());
    assert_eq!(r.results()[0].level, Level::Warning);
}

#[test]
fn match_code_is_put_under_tool() {
    let mut m = MatchFields::new();
    m.push("filename", "a.py");
    m.push("code", "E1");
    let mut r = Report::new();
    r.add_match_lint_result("flake", &m).unwrap();
    assert_eq!(r.results()[0].code.as_deref(), Some("flake:E1"));
    let mut m2 = MatchFields::new();
    m2.push("filename", "a.py");
    r.add_match_lint_result("flake", &m2).unwrap();
    assert_eq!(r.results()[1].code, None);
}

#[test]
fn match_without_filename_is_refused() {
    let mut m = MatchFields::new();
    m.push("line", "3");
    let mut r = Report::new();
    let e = r.add_match_lint_result("t", &m).err().unwrap();
    assert_eq!(e.kind, ErrorKind::Configuration);
    assert_eq!(r.results().len(), 0);
}

#[test]
fn numbers_and_levels_of_a_match() {
    let mut m = MatchFields::new();
    m.push("filename", "f");
    m.push("line", "+7");
    m.push("column", "x");
    m.push("level", "WARN");
    let res = LintResult::from_match(&m).unwrap();
    assert_eq!(res.line, 7);
    assert_eq!(res.column, 0);
    assert_eq!(res.level, Level::Warning);
    let mut m = MatchFields::new();
    m.push("filename", "f");
    m.push("line", "99999999999999999999");
    m.push("level", "Info");
    let res = LintResult::from_match(&m).unwrap();
    assert_eq!(res.line, 0);
    assert_eq!(res.level, Level::Info);
}

#[test]
fn level_names() {
    assert_eq!(Level::from_lowercase("e"), Level::Error);
    assert_eq!(Level::from_lowercase("err"), Level::Error);
    assert_eq!(Level::from_lowercase("w"), Level::Warning);
    assert_eq!(Level::from_lowercase("info"), Level::Info);
    assert_eq!(Level::from_lowercase("bogus"), Level::Error);
    assert_eq!(Level::from_name("ERROR"), Level::Error);
    assert_eq!(Level::default(), Level::Error);
}

#[test]
fn has_errors_only_with_an_error() {
    let mut r = Report::new();
    assert!(!r.has_errors());
    r.push_result(result(Some("a"), 1, None, Level::Warning));
    r.push_result(result(Some("a"), 2, None, Level::Info));
    assert!(!r.has_errors());
    assert_eq!(r.warnings_count(), 1);
    r.push_result(result(Some("a"), 3, None, Level::Error));
    assert!(r.has_errors());
    assert_eq!(r.error_count(), 1);
}

#[test]
fn sort_orders_and_is_idempotent() {
    let mut r = Report::new();
    r.push_result(result(Some("b"), 1, None, Level::Error));
    r.push_result(result(None, 5, None, Level::Error));
    r.push_result(result(Some("a"), 9, Some("x"), Level::Warning));
    r.push_result(result(Some("a"), 2, None, Level::Info));
    r.sort();
    let once = views(&r);
    assert_eq!(once, vec![
        (None, 5, None),
        (Some("a".to_string()), 2, None),
        (Some("a".to_string()), 9, Some("x".to_string())),
        (Some("b".to_string()), 1, None),
    ]);
    r.sort();
    assert_eq!(views(&r), once);
    assert_eq!(r.error_count(), 2);
    assert_eq!(r.warnings_count(), 1);
}

#[test]
fn compare_by_each_field() {
    let a = result(Some("a"), 1, None, Level::Error);
    let b = result(Some("a"), 1, None, Level::Warning);
    assert_eq!(compare_results(&a, &b), -1);
    assert_eq!(compare_results(&b, &a), 1);
    assert_eq!(compare_results(&a, &a), 0);
}

#[test]
fn human_line_with_excerpt() {
    let mut res = result(Some("/w/src/a.py"), 2, Some("t:E1"), Level::Error);
    res.column = 5;
    let text = res.human_format(Some("/w"), Some("    x = foo_bar + 1  "));
    assert_eq!(text, "src/a.py:2:5 t:E1 msg\n  x = foo_bar + 1\n  ^");
    // from a non-identifier, the caret goes under the next identifier's length
    res.column = 7;
    let text = res.human_format(Some("/w"), Some("    x = foo_bar + 1"));
    assert_eq!(text, "src/a.py:2:7 t:E1 msg\n  x = foo_bar + 1\n    ^^^^^^^");
    res.column = 9;
    let text = res.human_format(Some("/w"), Some("    x = foo_bar + 1"));
    assert_eq!(text, "src/a.py:2:9 t:E1 msg\n  x = foo_bar + 1\n      ^^^^^^^");
}

#[test]
fn human_line_defaults() {
    let res = LintResult { filename: None, line: 0, column: 0, code: None, message: None, level: Level::Error };
    assert_eq!(res.human_format(None, Some("ignored")), ":0:0 E no info");
}

#[test]
fn excerpt_without_column_has_no_caret() {
    assert_eq!(excerpt("  let a;  ", 0), "\n  let a;");
}

#[test]
fn simple_line() {
    let res = result(Some("/w/a.py"), 3, None, Level::Error);
    assert_eq!(res.simple_format().render(Some("/w/")), "a.py:3:0:msg [E]");
    assert_eq!(res.simple_format().render(Some("/other")), "/w/a.py:3:0:msg [E]");
}

#[test]
fn summary_counts_and_plurals() {
    assert_eq!(summary_line(1, 0), "Lint finished with 1 error and 0 warnings.");
    assert_eq!(summary_line(2, 1), "Lint finished with 2 errors and 1 warning.");
}

#[test]
fn relative_paths() {
    assert_eq!(relative_to("/a/b/c", "/a"), "b/c");
    assert_eq!(relative_to("/ab/c", "/a"), "/ab/c");
    assert_eq!(relative_to("/a", "/a"), "");
}

#[test]
fn scenario_checkstyle_groups_one_file() {
    let mut r = Report::new();
    r.add_lint_result("tool", result(Some("/p/a.py"), 1, Some("E1"), Level::Error));
    r.add_lint_result("tool", result(Some("/p/a.py"), 2, Some("W2"), Level::Warning));
    r.add_lint_result("tool", result(None, 0, None, Level::Info));
    let files = r.checkstyle_files();
    assert_eq!(files.len(), 2);
    assert_eq!(files[0].name, "/p/a.py");
    assert_eq!(files[0].errors.len(), 2);
    assert_eq!(files[0].errors[0].source, "tool.E1");
    assert_eq!(files[0].errors[1].source, "tool.W2");
    assert_eq!(files[0].errors[1].severity, "warning");
    assert_eq!(files[1].name, "<no file>");
    assert_eq!(files[1].errors[0].source, "unknown");
    let xml = r.get_checkstyle_doc().to_string().unwrap();
    assert!(xml.contains("<checkstyle version=\"4.3\">"));
    assert_eq!(xml.matches("<file ").count(), 2);
    assert_eq!(xml.matches("<error ").count(), 3);
    assert!(xml.contains("source=\"tool.E1\""));
    assert!(xml.contains("source=\"tool.W2\""));
    assert!(xml.contains("severity=\"warning\""));
    assert!(xml.contains("line=\"2\""));
    assert!(xml.contains("name=\"&lt;no file&gt;\"") || xml.contains("name=\"<no file>\""));
}

#[test]
fn format_names() {
    assert_eq!(Format::parse("human").unwrap(), Format::Human);
    assert_eq!(Format::parse("simple").unwrap(), Format::Simple);
    assert_eq!("checkstyle".parse::<Format>().unwrap(), Format::Checkstyle);
    assert_eq!(Format::parse("xml").err().unwrap().kind, ErrorKind::Configuration);
}
