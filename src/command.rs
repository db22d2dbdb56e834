//! What a process for a step is started with, and how its end and its
//! output lines are judged.
use vstd::prelude::*;
use crate::config::{ToolCommand, StreamActions, ReportPatternMatch, command_name};
use crate::errors::{Error, ErrorKind};
use crate::pattern::{MatchFields, line_fields};
use crate::text::{append_str, push_char, push_decimal, decimal};

verus! {

/// A process to start: the program, its arguments, and the name it is
/// shown by.
pub struct Invocation {
    pub program: String,
    pub args: Vec<String>,
    pub name: String,
}

pub open spec fn strings_view(v: Seq<String>) -> Seq<Seq<char>> {
    v.map_values(|s: String| s@)
}

/// A shell line with each extra argument appended in double quotes.
pub open spec fn shell_line(line: Seq<char>, extra: Seq<Seq<char>>) -> Seq<char>
    decreases extra.len(),
{
    if extra.len() == 0 {
        line
    } else {
        shell_line(line, extra.drop_last()) + " \""@ + extra.last() + "\""@
    }
}

/// The program and arguments a command runs with `extra` appended: a shell
/// line goes to `sh -c` with each extra argument quoted into it; an argument
/// vector gets them as further arguments. Nothing for an empty vector.
pub open spec fn invocation_of(cmd: ToolCommand, extra: Seq<Seq<char>>) -> Option<(Seq<char>, Seq<Seq<char>>)> {
    match cmd {
        ToolCommand::Shell(line) => Some(("sh"@, seq!["-c"@, shell_line(line@, extra)])),
        ToolCommand::Exec(args) => if args@.len() == 0 {
            None
        } else {
            Some((args@[0]@, strings_view(args@).drop_first() + extra))
        },
    }
}

/// Builds the process for a command, with `extra` (the files to work on)
/// appended. An empty argument vector is a configuration error.
pub fn build_invocation(cmd: &ToolCommand, extra: &Vec<String>) -> (r: Result<Invocation, Error>)
    ensures
        r is Ok <==> invocation_of(*cmd, strings_view(extra@)) is Some,
        r is Ok ==> (r->Ok_0.program@, strings_view(r->Ok_0.args@)) == invocation_of(*cmd, strings_view(extra@))->0
            && r->Ok_0.name@ == command_name(*cmd),
        r is Err ==> r->Err_0.kind == ErrorKind::Configuration,
{
    let ghost ex = strings_view(extra@);
    match cmd {
        ToolCommand::Shell(line) => {
            let mut l = line.clone();
            let mut i: usize = 0;
            while i < extra.len()
                invariant
                    i <= extra@.len(),
                    ex == strings_view(extra@),
                    l@ == shell_line(line@, ex.subrange(0, i as int)),
                decreases extra@.len() - i,
            {
                append_str(&mut l, " \"");
                append_str(&mut l, extra[i].as_str());
                append_str(&mut l, "\"");
                assert(ex.subrange(0, i as int + 1).drop_last() =~= ex.subrange(0, i as int));
                i += 1;
            }
            assert(ex.subrange(0, ex.len() as int) =~= ex);
            let args = vec!["-c".to_owned(), l];
            assert(strings_view(args@) =~= seq!["-c"@, shell_line(line@, ex)]);
            Ok(Invocation { program: "sh".to_owned(), args, name: cmd.name() })
        },
        ToolCommand::Exec(argv) => {
            if argv.len() == 0 {
                return Err(Error::new(ErrorKind::Configuration, "empty arguments for tool step"));
            }
            let mut args: Vec<String> = Vec::new();
            let mut i: usize = 1;
            while i < argv.len()
                invariant
                    1 <= i <= argv@.len(),
                    strings_view(args@) == strings_view(argv@).subrange(1, i as int),
                decreases argv@.len() - i,
            {
                let c = argv[i].clone();
                let ghost before = args@;
                args.push(c);
                assert(args@ == before.push(c));
                assert(strings_view(args@) =~= strings_view(before).push(argv@[i as int]@));
                i += 1;
                assert(strings_view(args@) =~= strings_view(argv@).subrange(1, i as int));
            }
            let mut j: usize = 0;
            while j < extra.len()
                invariant
                    j <= extra@.len(),
                    argv@.len() >= 1,
                    ex == strings_view(extra@),
                    strings_view(args@) == strings_view(argv@).drop_first() + ex.subrange(0, j as int),
                decreases extra@.len() - j,
            {
                let c = extra[j].clone();
                let ghost before = args@;
                args.push(c);
                assert(strings_view(args@) =~= strings_view(before).push(ex[j as int]));
                j += 1;
                assert(strings_view(args@) =~= strings_view(argv@).drop_first() + ex.subrange(0, j as int));
            }
            assert(ex.subrange(0, ex.len() as int) =~= ex);
            Ok(Invocation { program: argv[0].clone(), args, name: cmd.name() })
        },
    }
}

/// The search path for a step: each runtime directory followed by `:`, then
/// the inherited search path.
pub open spec fn search_path_text(dirs: Seq<Seq<char>>, inherited: Seq<char>) -> Seq<char>
    decreases dirs.len(),
{
    if dirs.len() == 0 {
        inherited
    } else {
        dirs[0] + ":"@ + search_path_text(dirs.drop_first(), inherited)
    }
}

/// The `PATH` for a step: the runtimes' directories, in order, before the
/// inherited one (if any).
pub fn search_path(dirs: &Vec<String>, inherited: Option<&str>) -> (r: String)
    ensures
        r@ == search_path_text(strings_view(dirs@), match inherited { Some(p) => p@, None => Seq::empty() }),
{
    let ghost d = strings_view(dirs@);
    let ghost inh = match inherited { Some(p) => p@, None => Seq::<char>::empty() };
    let mut out = String::new();
    let mut i: usize = 0;
    assert(d.subrange(0, d.len() as int) =~= d);
    while i < dirs.len()
        invariant
            i <= dirs@.len(),
            d == strings_view(dirs@),
            out@ + search_path_text(d.subrange(i as int, d.len() as int), inh) == search_path_text(d, inh),
        decreases dirs@.len() - i,
    {
        let ghost rest = d.subrange(i as int, d.len() as int);
        assert(rest.drop_first() =~= d.subrange(i as int + 1, d.len() as int));
        let ghost before = out@;
        append_str(&mut out, dirs[i].as_str());
        append_str(&mut out, ":");
        assert(out@ + search_path_text(rest.drop_first(), inh) =~= before + search_path_text(rest, inh));
        i += 1;
    }
    let ghost before = out@;
    match inherited {
        Some(p) => append_str(&mut out, p),
        None => {},
    }
    assert(out@ =~= before + inh);
    out
}

/// Which output streams have a line handler, and whether the process must
/// succeed.
#[derive(Clone, Copy, Debug, PartialEq, Eq, Structural)]
pub struct CommandHandlers {
    pub on_stdout: bool,
    pub on_stderr: bool,
    pub expect: bool,
}

impl Default for CommandHandlers {
    fn default() -> (r: CommandHandlers)
        ensures
            r == (CommandHandlers { on_stdout: false, on_stderr: false, expect: true }),
    {
        CommandHandlers { on_stdout: false, on_stderr: false, expect: true }
    }
}

/// Whether actions on a stream parse its lines.
pub open spec fn stream_handled(a: Option<StreamActions>) -> bool {
    match a {
        Some(s) => s.parse_lines is Some || s.parse_lint_json,
        None => false,
    }
}

/// Whether a step's process must succeed: only where none of its output is
/// parsed into a report.
pub open spec fn expects_success(with_report: bool, out_parsed: bool, err_parsed: bool) -> bool {
    !((with_report && out_parsed) || (with_report && err_parsed))
}

/// The handlers of a step. Streams are parsed only where there is a report
/// to add to; a step whose output is parsed need not succeed, since its
/// findings decide.
pub fn step_handlers(stdout: Option<&StreamActions>, stderr: Option<&StreamActions>, with_report: bool) -> (r: CommandHandlers)
    ensures
        r.on_stdout == (with_report && stream_handled(match stdout { Some(a) => Some(*a), None => None })),
        r.on_stderr == (with_report && stream_handled(match stderr { Some(a) => Some(*a), None => None })),
        r.expect == !(r.on_stdout || r.on_stderr),
        r.expect == expects_success(with_report, stream_handled(match stdout { Some(a) => Some(*a), None => None }),
            stream_handled(match stderr { Some(a) => Some(*a), None => None })),
{
    let out = with_report && match stdout {
        Some(a) => a.parse_lines.is_some() || a.parse_lint_json,
        None => false,
    };
    let err = with_report && match stderr {
        Some(a) => a.parse_lines.is_some() || a.parse_lint_json,
        None => false,
    };
    CommandHandlers { on_stdout: out, on_stderr: err, expect: !(out || err) }
}

/// How a finished process is judged: nothing (an error) for a failure
/// where success was expected; otherwise whether it succeeded.
pub open spec fn judge(expect: bool, succeeded: bool) -> Option<bool> {
    if expect && !succeeded { None } else { Some(succeeded) }
}

/// A signed number in decimal.
pub open spec fn signed_decimal(n: int) -> Seq<char> {
    if n < 0 { "-"@ + decimal((-n) as nat) } else { decimal(n as nat) }
}

/// How a process ended: `exit status: <code>`, or by a signal where it
/// gave no code.
pub open spec fn status_text(code: Option<i32>) -> Seq<char> {
    match code {
        Some(c) => "exit status: "@ + signed_decimal(c as int),
        None => "a signal"@,
    }
}

/// The message for a process that failed where success was expected.
pub open spec fn failure_message(name: Seq<char>, code: Option<i32>) -> Seq<char> {
    name + " failed with "@ + status_text(code)
}

/// The text of how a process ended.
pub fn status_string(code: Option<i32>) -> (r: String)
    ensures
        r@ == status_text(code),
{
    match code {
        Some(c) => {
            let mut t = "exit status: ".to_owned();
            if c < 0 {
                append_str(&mut t, "-");
                let m: u64 = (-(c as i64)) as u64;
                push_decimal(&mut t, m);
            } else {
                push_decimal(&mut t, c as u64);
            }
            t
        },
        None => "a signal".to_owned(),
    }
}

/// How a finished process is judged from its exit code (none where a
/// signal ended it): success is code 0. A failure where success was
/// expected is an execution error naming the command and how it ended;
/// otherwise the result is whether it succeeded.
pub fn wait_outcome(handlers: &CommandHandlers, name: &str, code: Option<i32>) -> (r: Result<bool, Error>)
    ensures
        judge(handlers.expect, code == Some(0i32)) is None ==> r is Err && r->Err_0.kind == ErrorKind::Execution
            && r->Err_0.message@ == failure_message(name@, code),
        judge(handlers.expect, code == Some(0i32)) is Some ==> r == Ok::<bool, Error>(code == Some(0i32)),
{
    let succeeded = match code {
        Some(c) => c == 0,
        None => false,
    };
    if handlers.expect && !succeeded {
        let mut m = name.to_owned();
        append_str(&mut m, " failed with ");
        let st = status_string(code);
        append_str(&mut m, st.as_str());
        Err(Error { kind: ErrorKind::Execution, message: m })
    } else {
        Ok(succeeded)
    }
}

/// What to do with one line of a stream.
pub enum LineAction {
    /// Add the diagnostic that these fields describe.
    Report(MatchFields),
    /// Decode the line as one diagnostic in JSON.
    DecodeJson,
    /// Nothing.
    Skip,
}

/// The action for a line of a stream with these actions: decoding JSON
/// where that is asked for; else, where the line pattern matches and its
/// match is reported, the fields it picked out; else nothing.
pub fn line_action(actions: &StreamActions, line: &str) -> (r: LineAction)
    ensures
        actions.parse_lint_json ==> r is DecodeJson,
        !actions.parse_lint_json ==> match actions.parse_lines {
            Some(p) => match line_fields(p.pattern@, line@) {
                Some(f) => r is Report && r->Report_0@ == f,
                None => r is Skip,
            },
            None => r is Skip,
        },
{
    if actions.parse_lint_json {
        return LineAction::DecodeJson;
    }
    match &actions.parse_lines {
        Some(p) => match p.pattern.match_str(line) {
            Some(f) => match p.report_match {
                ReportPatternMatch::LintResult => LineAction::Report(f),
            },
            None => LineAction::Skip,
        },
        None => LineAction::Skip,
    }
}

} // verus!
