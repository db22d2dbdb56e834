use calm::command::{build_invocation, search_path, step_handlers, wait_outcome, line_action, CommandHandlers, LineAction};
use calm::config::{LinkSpec, LintSpec, ParseLinesAction, RemoteToolInclude, RemoteUpdate, ReportPatternMatch, RuntimeConfig, StreamActions, ToolCommand, ToolSpec, ToolStep};
use calm::errors::ErrorKind;
use calm::pattern::Pattern;
use calm::runtime::Runtime;
use calm::text::{decimal_string, parse_u64};
use calm::tools::{LintPlan, StepRun, Tool};
use calm::vars::expand_vars;

fn spec_with_lint(patterns: &[&str]) -> ToolSpec {
    ToolSpec {
        tool_dir_base: None,
        remote: None,
        description: None,
        runtimes: vec![],
        install_steps: vec![],
        lint: Some(LintSpec {
            patterns: patterns.iter().map(|p| Pattern::from_config(p).unwrap()).collect(),
            run: vec![ToolStep::Command {
                description: None,
                cmd: ToolCommand::Shell("mylinter".to_string()),
                stdout: None,
                stderr: None,
            }],
        }),
        format: None,
    }
}

fn strings(v: &[&str]) -> Vec<String> {
    v.iter().map(|s| s.to_string()).collect()
}

#[test]
fn scenario_no_relevant_file_skips_lint() {
    let spec = spec_with_lint(&["*.py"]);
    let tool = Tool::new("t", &spec, "/p/.calm", "/cache", "/p").unwrap();
    assert!(matches!(tool.lint_plan(Some(&strings(&["a.rs", "b.txt"]))), LintPlan::Succeed));
}

#[test]
fn lint_plan_selects_relative_files() {
    let spec = spec_with_lint(&["*.py"]);
    let tool = Tool::new("t", &spec, "/p/.calm", "/cache", "/p").unwrap();
    match tool.lint_plan(Some(&strings(&["/p/a.py", "b.rs", "c.py"]))) {
        LintPlan::Run(files) => assert_eq!(files, strings(&["a.py", "c.py"])),
        LintPlan::Succeed => panic!("expected a run"),
    }
    match tool.lint_plan(None) {
        LintPlan::Run(files) => assert!(files.is_empty()),
        LintPlan::Succeed => panic!("expected a run"),
    }
    assert!(tool.does_lint_file("x.py"));
    assert!(!tool.does_lint_file("x.rs"));
}

#[test]
fn no_lint_configuration_succeeds() {
    let mut spec = spec_with_lint(&["*"]);
    spec.lint = None;
    let tool = Tool::new("t", &spec, "/c", "/cache", "/p").unwrap();
    assert!(matches!(tool.lint_plan(None), LintPlan::Succeed));
    assert!(!tool.does_lint_file("a"));
}

#[test]
fn scenario_shell_and_exec_forms() {
    let extra = strings(&["a.py", "b.py"]);
    let inv = build_invocation(&ToolCommand::Shell("mylinter".to_string()), &extra).unwrap();
    assert_eq!(inv.program, "sh");
    assert_eq!(inv.args, strings(&["-c", "mylinter \"a.py\" \"b.py\""]));
    assert_eq!(inv.name, "mylinter");
    let inv = build_invocation(&ToolCommand::Exec(strings(&["mylinter", "--strict"])), &extra).unwrap();
    assert_eq!(inv.program, "mylinter");
    assert_eq!(inv.args, strings(&["--strict", "a.py", "b.py"]));
}

#[test]
fn empty_argument_vector_is_refused() {
    let e = build_invocation(&ToolCommand::Exec(vec![]), &vec![]).err().unwrap();
    assert_eq!(e.kind, ErrorKind::Configuration);
}

#[test]
fn search_path_puts_runtimes_first() {
    assert_eq!(search_path(&strings(&["/r/bin", "/s/bin"]), Some("/usr/bin")), "/r/bin:/s/bin:/usr/bin");
    assert_eq!(search_path(&vec![], None), "");
}

#[test]
fn scenario_install_failure_stops_lint_failure_continues() {
    // install: no report, so a failing process is an error and the run stops
    let h = step_handlers(None, None, false);
    assert_eq!(h, CommandHandlers::default());
    let outcome = wait_outcome(&h, "installer", Some(2));
    assert_eq!(outcome.as_ref().err().unwrap().kind, ErrorKind::Execution);
    assert_eq!(outcome.as_ref().err().unwrap().message, "installer failed with exit status: 2");
    let mut run = StepRun::new(3);
    assert_eq!(run.next_step(), Some(0));
    run.record(&outcome);
    assert_eq!(run.next_step(), None);
    assert_eq!(run.finished(), None);
    // lint with parsed output: a failing process is a result, and the run goes on
    let actions = StreamActions { parse_lines: None, parse_lint_json: true };
    let h = step_handlers(Some(&actions), None, true);
    assert!(!h.expect);
    let mut run = StepRun::new(2);
    run.record(&wait_outcome(&h, "linter", Some(1)));
    assert_eq!(run.next_step(), Some(1));
    run.record(&wait_outcome(&h, "linter", Some(0)));
    assert_eq!(run.finished(), Some(false));
}

#[test]
fn line_actions() {
    let json = StreamActions { parse_lines: None, parse_lint_json: true };
    assert!(matches!(line_action(&json, "{}"), LineAction::DecodeJson));
    let lines = StreamActions {
        parse_lines: Some(ParseLinesAction {
            pattern: Pattern::from_config("/^(?P<filename>[^:]+):/").unwrap(),
            report_match: ReportPatternMatch::LintResult,
        }),
        parse_lint_json: false,
    };
    match line_action(&lines, "a.py: bad") {
        LineAction::Report(f) => assert_eq!(f.get("filename"), Some("a.py".to_string())),
        _ => panic!("expected a report"),
    }
    assert!(matches!(line_action(&lines, "nothing"), LineAction::Skip));
}

#[test]
fn variables_expand() {
    let vars = vec![("A".to_string(), "1".to_string())];
    let env = vec![("B".to_string(), "2".to_string()), ("A".to_string(), "9".to_string())];
    assert_eq!(expand_vars("$A/${B}/$(A)/$$/$C/$", &vars, &env), "1/2/1/$//$");
    assert_eq!(expand_vars("$(unclosed", &vars, &env), "$(unclosed");
}

#[test]
fn link_paths_and_parsing() {
    let link = LinkSpec::parse("cfg/$NAME.ini -> .config/${NAME}.ini").unwrap();
    assert_eq!(link.src, "cfg/$NAME.ini");
    assert_eq!(link.dst.as_deref(), Some(".config/${NAME}.ini"));
    let plain = LinkSpec::parse("setup.cfg").unwrap();
    assert_eq!(plain.dst, None);
    assert_eq!(LinkSpec::parse("").err().unwrap().kind, ErrorKind::Configuration);
    let spec = spec_with_lint(&["*"]);
    let tool = Tool::new("t", &spec, "/p/.calm", "/cache", "/p").unwrap();
    let vars = vec![("NAME".to_string(), "x".to_string())];
    let (from, to) = tool.link_paths(&link, &vars, &vec![]);
    assert_eq!(from, "/p/.calm/cfg/x.ini");
    assert_eq!(to, "/p/.config/x.ini");
}

#[test]
fn runtime_identity_and_environment() {
    let cfg = RuntimeConfig { flavor: None, packages: vec![] };
    let rt = Runtime::create("python", &cfg, "/cache").unwrap();
    assert_eq!(rt.id(), "255bb867e5aef938e76b71c0148e498fd29d980e");
    assert_eq!(rt.get_path(), "/cache/rt/255bb867e5aef938e76b71c0148e498fd29d980e");
    let mut env = vec![];
    rt.update_env(&mut env);
    assert!(env.contains(&("CALM_PYTHON_BIN".to_string(), format!("{}/bin", rt.get_path()))));
    let js = Runtime::create("javascript", &cfg, "/cache").unwrap();
    assert_eq!(js.id(), "d4d062dd70452d50d32c9c0bf32ce426e6313e80");
    let flavored = Runtime::create("python", &RuntimeConfig { flavor: Some("pypy".to_string()), packages: vec![] }, "/c").unwrap();
    let mut env = vec![];
    flavored.update_env(&mut env);
    assert!(env.iter().any(|(k, _)| k == "CALM_PYPY_VENV"));
    assert_eq!(Runtime::create("ruby", &cfg, "/c").err().unwrap().kind, ErrorKind::NotFound);
}

#[test]
fn tool_environment_and_paths() {
    let mut spec = spec_with_lint(&["*"]);
    spec.runtimes = vec![("javascript".to_string(), RuntimeConfig { flavor: None, packages: vec![] })];
    let tool = Tool::new("t", &spec, "/p/.calm", "/cache", "/p").unwrap();
    let env = tool.env_vars();
    assert!(env.contains(&("CALM_TOOL_PATH".to_string(), "/p/.calm".to_string())));
    assert!(env.iter().any(|(k, _)| k == "NODE_PATH"));
    let mut paths = vec![];
    tool.add_search_paths(&mut paths);
    assert_eq!(paths.len(), 1);
    assert!(paths[0].ends_with("/node_modules/.bin"));
    spec.runtimes = vec![("cobol".to_string(), RuntimeConfig { flavor: None, packages: vec![] })];
    assert_eq!(Tool::new("t", &spec, "/c", "/cache", "/p").err().unwrap().kind, ErrorKind::NotFound);
}

#[test]
fn remote_sources() {
    let git = RemoteToolInclude::Git { git: "https://x/y.git".to_string(), rev: None, path: Some("//tools/lint".to_string()) };
    assert_eq!(git.checksum(), "871bdc867402b6f429ae91ff86e8de8f8805288b");
    assert_eq!(git.path_prefix(), Some("tools/lint".to_string()));
    assert_eq!(git.local_path_reference("/cfg", "/cache"), "/cache/tools/871bdc867402b6f429ae91ff86e8de8f8805288b");
    let rev = RemoteToolInclude::Git { git: "https://x/y.git".to_string(), rev: Some("v1".to_string()), path: None };
    assert_eq!(rev.checksum(), "5630cedc9ae993d94eefcd89e1e2146b25c5e824");
    let local = RemoteToolInclude::Path { path: "tools/lint".to_string() };
    assert_eq!(local.checksum(), "bd7598a8feeb16a79dde7022438770d31b3f808f");
    assert_eq!(local.local_path_reference("/cfg", "/cache"), "/cfg/tools/lint");
    assert_eq!(local.path_prefix(), None);
    let mut spec = spec_with_lint(&["*"]);
    spec.tool_dir_base = Some("/cache/tools/abc".to_string());
    spec.remote = Some(git);
    assert_eq!(spec.tool_dir_prefix(), Some("/cache/tools/abc/tools/lint".to_string()));
}

#[test]
fn step_descriptions() {
    let step = ToolStep::Command { description: None, cmd: ToolCommand::Shell("  black --check .".to_string()), stdout: None, stderr: None };
    assert_eq!(step.description(), "Running black");
    assert_eq!(step.cmd_name(), "black");
    let link = ToolStep::Link { description: None, link: LinkSpec { src: "a".to_string(), dst: None } };
    assert_eq!(link.description(), "Linking a");
    assert!(link.cmd().is_none());
    let named = ToolStep::Command { description: Some("Check".to_string()), cmd: ToolCommand::Exec(vec![]), stdout: None, stderr: None };
    assert_eq!(named.description(), "Check");
    assert_eq!(named.cmd_name(), "command");
}

#[test]
fn numbers_as_text() {
    assert_eq!(decimal_string(0), "0");
    assert_eq!(decimal_string(18446744073709551615), "18446744073709551615");
    assert_eq!(parse_u64("18446744073709551615"), Some(u64::MAX));
    assert_eq!(parse_u64("18446744073709551616"), None);
    assert_eq!(parse_u64("+"), None);
    assert_eq!(parse_u64(""), None);
    assert_eq!(parse_u64("-1"), None);
    assert_eq!(parse_u64("007"), Some(7));
}

#[test]
fn package_arguments() {
    let cfg = RuntimeConfig { flavor: None, packages: vec![] };
    let pkgs = vec![("flake8".to_string(), "3.5".to_string())];
    let py = Runtime::create("python", &cfg, "/c").unwrap();
    assert_eq!(py.package_args(&pkgs), strings(&["flake8==3.5"]));
    let js = Runtime::create("javascript", &cfg, "/c").unwrap();
    assert_eq!(js.package_args(&pkgs), strings(&["flake8@3.5"]));
}

#[test]
fn remote_update_actions() {
    let pinned = RemoteToolInclude::Git { git: "g".to_string(), rev: Some("v1".to_string()), path: None };
    let tracking = RemoteToolInclude::Git { git: "g".to_string(), rev: None, path: None };
    let local = RemoteToolInclude::Path { path: "p".to_string() };
    assert_eq!(pinned.update_action(false), RemoteUpdate::Clone);
    assert_eq!(pinned.update_action(true), RemoteUpdate::Keep);
    assert_eq!(tracking.update_action(true), RemoteUpdate::Pull);
    assert_eq!(local.update_action(false), RemoteUpdate::Keep);
}

#[test]
fn merging_a_tool_description() {
    let mut base = spec_with_lint(&["*.py"]);
    base.runtimes = vec![("python".to_string(), RuntimeConfig { flavor: None, packages: vec![] })];
    let mut own = spec_with_lint(&["*.js"]);
    own.description = Some("mine".to_string());
    own.runtimes = vec![("python".to_string(), RuntimeConfig { flavor: Some("pypy".to_string()), packages: vec![] })];
    own.install_steps = vec![ToolStep::Link { description: None, link: LinkSpec { src: "x".to_string(), dst: None } }];
    base.merge(own);
    assert_eq!(base.description.as_deref(), Some("mine"));
    assert_eq!(base.runtimes.len(), 1);
    assert_eq!(base.runtimes[0].1.flavor.as_deref(), Some("pypy"));
    assert_eq!(base.install_steps.len(), 1);
    assert!(base.lint.as_ref().unwrap().patterns[0].match_path("a.js"));
}

#[test]
fn diff_of_changed_lines() {
    let old = strings(&["a\n", "b\n"]);
    let new = strings(&["a\n", "c\n"]);
    assert!(calm::diff::file_diff(&old, &old, "f.py").is_none());
    let d = calm::diff::file_diff(&old, &new, "f.py").unwrap();
    assert_eq!(d[0], "--- a/f.py\t\n");
    assert_eq!(d[1], "+++ b/f.py\t\n");
    assert!(d.contains(&"-b\n".to_string()));
    assert!(d.contains(&"+c\n".to_string()));
}

#[test]
fn process_end_judged_by_code() {
    let h = CommandHandlers::default();
    assert_eq!(wait_outcome(&h, "x", Some(0)).unwrap(), true);
    assert_eq!(wait_outcome(&h, "x", None).err().unwrap().message, "x failed with a signal");
    assert_eq!(wait_outcome(&h, "x", Some(-3)).err().unwrap().message, "x failed with exit status: -3");
    let parsed = CommandHandlers { on_stdout: true, on_stderr: false, expect: false };
    assert_eq!(wait_outcome(&parsed, "x", Some(4)).unwrap(), false);
}
