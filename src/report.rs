//! Diagnostics, and the report that collects them during a lint run.
use vstd::prelude::*;
use crate::errors::{Error, ErrorKind};
use crate::order::{sort_lint_results, sort_results, views, same_text, lemma_sort_results_sorted, is_sorted,
    occurrences, lemma_sort_results_permutes};
use crate::pattern::{MatchFields, field_value};
use crate::text::{parse_u64, is_u64_text, digits_value, unsigned_digits, lower_of, to_lowercase,
    append_str};

verus! {

/// How severe a diagnostic is.
#[derive(Clone, Copy, Debug, PartialEq, Eq, Structural, PartialOrd, Ord, Hash)]
pub enum Level {
    Error,
    Warning,
    Info,
}

/// The position of a level in the order of diagnostics.
pub open spec fn level_rank(l: Level) -> int {
    match l {
        Level::Error => 0,
        Level::Warning => 1,
        Level::Info => 2,
    }
}

impl Level {
    pub fn rank(&self) -> (r: u64)
        ensures
            r as int == level_rank(*self),
    {
        match self {
            Level::Error => 0,
            Level::Warning => 1,
            Level::Info => 2,
        }
    }
}

impl Default for Level {
    fn default() -> (r: Level)
        ensures
            r == Level::Error,
    {
        Level::Error
    }
}

/// How a report is printed.
#[derive(Clone, Copy, Debug, PartialEq, Eq, Structural)]
pub enum Format {
    /// One line per diagnostic with a source excerpt, and a summary.
    Human,
    /// One plain line per diagnostic, for machines.
    Simple,
    /// A checkstyle XML document.
    Checkstyle,
}

/// The format a name stands for.
pub open spec fn format_of_name(name: Seq<char>) -> Option<Format> {
    if name == "human"@ {
        Some(Format::Human)
    } else if name == "simple"@ {
        Some(Format::Simple)
    } else if name == "checkstyle"@ {
        Some(Format::Checkstyle)
    } else {
        None
    }
}

impl Format {
    /// The format named `human`, `simple` or `checkstyle`; any other name is
    /// a configuration error.
    pub fn parse(name: &str) -> (r: Result<Format, Error>)
        ensures
            r is Ok <==> format_of_name(name@) is Some,
            r is Ok ==> Some(r->Ok_0) == format_of_name(name@),
            r is Err ==> r->Err_0.kind == ErrorKind::Configuration,
    {
        if same_text(name, "human") {
            Ok(Format::Human)
        } else if same_text(name, "simple") {
            Ok(Format::Simple)
        } else if same_text(name, "checkstyle") {
            Ok(Format::Checkstyle)
        } else {
            let mut m = "Unknown format '".to_owned();
            append_str(&mut m, name);
            append_str(&mut m, "'");
            Err(Error { kind: ErrorKind::Configuration, message: m })
        }
    }
}

impl std::str::FromStr for Format {
    type Err = Error;

    fn from_str(s: &str) -> Result<Format, Error> {
        Format::parse(s)
    }
}

/// One finding of a lint tool. A line or column of 0 is unknown; a
/// diagnostic without a filename is a general issue of the project.
#[derive(Debug)]
pub struct LintResult {
    pub filename: Option<String>,
    pub line: u64,
    pub column: u64,
    pub code: Option<String>,
    pub message: Option<String>,
    pub level: Level,
}

pub ghost struct LintResultView {
    pub filename: Option<Seq<char>>,
    pub line: u64,
    pub column: u64,
    pub code: Option<Seq<char>>,
    pub message: Option<Seq<char>>,
    pub level: Level,
}

pub open spec fn opt_view(s: Option<String>) -> Option<Seq<char>> {
    match s {
        Some(t) => Some(t@),
        None => None,
    }
}

impl View for LintResult {
    type V = LintResultView;

    open spec fn view(&self) -> LintResultView {
        LintResultView {
            filename: opt_view(self.filename),
            line: self.line,
            column: self.column,
            code: opt_view(self.code),
            message: opt_view(self.message),
            level: self.level,
        }
    }
}

/// The level that a lowercase level name stands for; unknown names are errors.
pub open spec fn level_of_name(name: Seq<char>) -> Level {
    if name == "error"@ || name == "e"@ || name == "err"@ {
        Level::Error
    } else if name == "warning"@ || name == "w"@ || name == "warn"@ {
        Level::Warning
    } else if name == "info"@ {
        Level::Info
    } else {
        Level::Error
    }
}

/// The level that a name stands for, whatever its case.
pub open spec fn level_of_text(name: Seq<char>) -> Level {
    level_of_name(lower_of(name))
}

impl Level {
    /// The level that a lowercase name stands for: `error`, `e`, `err`;
    /// `warning`, `w`, `warn`; `info`. Any other name is an error.
    pub fn from_lowercase(name: &str) -> (r: Level)
        ensures
            r == level_of_name(name@),
    {
        if same_text(name, "error") || same_text(name, "e") || same_text(name, "err") {
            Level::Error
        } else if same_text(name, "warning") || same_text(name, "w") || same_text(name, "warn") {
            Level::Warning
        } else if same_text(name, "info") {
            Level::Info
        } else {
            Level::Error
        }
    }

    /// The level that a name stands for, whatever its case.
    pub fn from_name(name: &str) -> (r: Level)
        ensures
            r == level_of_text(name@),
    {
        let lower = to_lowercase(name);
        Level::from_lowercase(lower.as_str())
    }

    /// The level's name in reports.
    pub fn name(&self) -> (r: &'static str)
        ensures
            r@ == level_name(*self),
    {
        match self {
            Level::Error => "error",
            Level::Warning => "warning",
            Level::Info => "info",
        }
    }
}

pub open spec fn level_name(l: Level) -> Seq<char> {
    match l {
        Level::Error => "error"@,
        Level::Warning => "warning"@,
        Level::Info => "info"@,
    }
}

/// A number field of a match: its value where it is an unsigned number that
/// fits, else 0.
pub open spec fn number_field(v: Option<Seq<char>>) -> u64 {
    match v {
        Some(t) => if is_u64_text(t) {
            digits_value(unsigned_digits(t)) as u64
        } else {
            0
        },
        None => 0,
    }
}

/// The diagnostic that the fields of a match describe, before its code is
/// put under the tool's name; nothing where the match has no filename.
pub open spec fn match_result(m: Seq<(Seq<char>, Seq<char>)>) -> Option<LintResultView> {
    match field_value(m, "filename"@) {
        Some(f) => Some(LintResultView {
            filename: Some(f),
            line: number_field(field_value(m, "line"@)),
            column: number_field(field_value(m, "column"@)),
            code: field_value(m, "code"@),
            message: field_value(m, "message"@),
            level: match field_value(m, "level"@) {
                Some(l) => level_of_text(l),
                None => Level::Error,
            },
        }),
        None => None,
    }
}

/// A code under a tool's name: `<tool>:<code>`.
pub open spec fn namespaced_code(tool: Seq<char>, code: Option<Seq<char>>) -> Option<Seq<char>> {
    match code {
        Some(c) => Some(tool + ":"@ + c),
        None => None,
    }
}

/// A diagnostic as a tool's report holds it: its code under the tool's name.
pub open spec fn namespaced(tool: Seq<char>, r: LintResultView) -> LintResultView {
    LintResultView { code: namespaced_code(tool, r.code), ..r }
}

/// A diagnostic added from a line match carries the matched code under the
/// tool's name, `<tool>:<code>`, and no code where none was matched.
pub proof fn lemma_match_code(tool: Seq<char>, m: Seq<(Seq<char>, Seq<char>)>)
    requires
        match_result(m) is Some,
    ensures
        namespaced(tool, match_result(m)->0).code == match field_value(m, "code"@) {
            Some(c) => Some(tool + ":"@ + c),
            None => None,
        },
{
}

fn number_of(v: Option<String>) -> (r: u64)
    ensures
        r == number_field(opt_view(v)),
{
    match v {
        Some(t) => match parse_u64(t.as_str()) {
            Some(n) => n,
            None => 0,
        },
        None => 0,
    }
}

impl LintResult {
    /// The diagnostic that the fields of a line match describe: the file as
    /// matched, line and column where they are numbers (else 0), code and
    /// message as matched, and the level by its name (an error by default).
    /// A match without a filename is a configuration error.
    pub fn from_match(m: &MatchFields) -> (r: Result<LintResult, Error>)
        ensures
            r is Ok <==> match_result(m@) is Some,
            r is Ok ==> Some(r->Ok_0@) == match_result(m@),
            r is Err ==> r->Err_0.kind == ErrorKind::Configuration,
    {
        let filename = match m.get("filename") {
            Some(f) => f,
            None => {
                return Err(Error::new(ErrorKind::Configuration, "pattern match has no filename"));
            },
        };
        let line = number_of(m.get("line"));
        let column = number_of(m.get("column"));
        let level = match m.get("level") {
            Some(l) => Level::from_name(l.as_str()),
            None => Level::Error,
        };
        Ok(LintResult {
            filename: Some(filename),
            line,
            column,
            code: m.get("code"),
            message: m.get("message"),
            level,
        })
    }

    /// The same diagnostic with its code put under the tool's name.
    pub fn with_tool_code(self, tool_id: &str) -> (r: LintResult)
        ensures
            r@ == namespaced(tool_id@, self@),
    {
        let code = match self.code {
            Some(c) => {
                let mut t = tool_id.to_owned();
                append_str(&mut t, ":");
                append_str(&mut t, c.as_str());
                Some(t)
            },
            None => None,
        };
        LintResult { code, ..self }
    }
}

/// How many diagnostics of `s` have level `l`.
pub open spec fn count_level(s: Seq<LintResultView>, l: Level) -> nat
    decreases s.len(),
{
    if s.len() == 0 {
        0
    } else {
        count_level(s.drop_last(), l) + if s.last().level == l { 1nat } else { 0nat }
    }
}

proof fn lemma_count_level_bound(s: Seq<LintResultView>, l: Level)
    ensures
        count_level(s, l) <= s.len(),
        count_level(s, l) > 0 <==> exists|i: int| 0 <= i < s.len() && (#[trigger] s[i]).level == l,
    decreases s.len(),
{
    if s.len() > 0 {
        lemma_count_level_bound(s.drop_last(), l);
        if count_level(s.drop_last(), l) > 0 {
            let i = choose|i: int| 0 <= i < s.drop_last().len() && (#[trigger] s.drop_last()[i]).level == l;
            assert(s[i] == s.drop_last()[i]);
        }
        if exists|i: int| 0 <= i < s.len() && (#[trigger] s[i]).level == l {
            let i = choose|i: int| 0 <= i < s.len() && (#[trigger] s[i]).level == l;
            if i < s.len() - 1 {
                assert(s.drop_last()[i] == s[i]);
            }
        }
    }
}

proof fn lemma_count_level_insert(s: Seq<LintResultView>, p: int, x: LintResultView, l: Level)
    requires
        0 <= p <= s.len(),
    ensures
        count_level(s.insert(p, x), l) == count_level(s, l) + if x.level == l { 1nat } else { 0nat },
    decreases s.len(),
{
    if p < s.len() {
        lemma_count_level_insert(s.drop_last(), p, x, l);
        assert(s.insert(p, x).drop_last() =~= s.drop_last().insert(p, x));
    } else {
        assert(s.insert(p, x).drop_last() =~= s);
    }
}

pub proof fn lemma_count_level_sort(s: Seq<LintResultView>, l: Level)
    ensures
        count_level(sort_results(s), l) == count_level(s, l),
    decreases s.len(),
{
    if s.len() > 0 {
        lemma_count_level_sort(s.drop_last(), l);
        lemma_sort_results_sorted(s.drop_last());
        crate::order::lemma_insert_pos_bound(sort_results(s.drop_last()), s.last());
        lemma_count_level_insert(sort_results(s.drop_last()), crate::order::insert_pos(sort_results(s.drop_last()), s.last()) as int, s.last(), l);
    }
}

/// A diagnostic in its one-line form for machines.
pub struct LintResultSimpleFormat<'a> {
    pub(crate) lr: &'a LintResult,
}

/// The diagnostics of one lint run, in the order they came, with the
/// number of errors and of warnings among them.
#[derive(Debug)]
pub struct Report {
    lint_results: Vec<LintResult>,
    errors: usize,
    warnings: usize,
}

impl View for Report {
    type V = Seq<LintResultView>;

    closed spec fn view(&self) -> Seq<LintResultView> {
        views(self.lint_results@)
    }
}

impl Report {
    /// The counters agree with the diagnostics.
    pub closed spec fn wf(&self) -> bool {
        &&& self.errors == count_level(self@, Level::Error)
        &&& self.warnings == count_level(self@, Level::Warning)
    }

    /// An empty report.
    pub fn new() -> (r: Report)
        ensures
            r.wf(),
            r@ == Seq::<LintResultView>::empty(),
    {
        let r = Report { lint_results: Vec::new(), errors: 0, warnings: 0 };
        assert(r@ =~= Seq::<LintResultView>::empty());
        r
    }

    /// Appends a diagnostic as it stands.
    pub fn push_result(&mut self, res: LintResult)
        requires
            old(self).wf(),
        ensures
            final(self).wf(),
            final(self)@ == old(self)@.push(res@),
    {
        let ghost before = self@;
        let level = res.level;
        self.lint_results.push(res);
        let n = self.lint_results.len();
        assert(self@ =~= before.push(res@));
        assert(self@.drop_last() =~= before);
        proof {
            lemma_count_level_bound(self@, Level::Error);
            lemma_count_level_bound(self@, Level::Warning);
        }
        match level {
            Level::Error => {
                self.errors = self.errors + 1;
            },
            Level::Warning => {
                self.warnings = self.warnings + 1;
            },
            Level::Info => {},
        }
    }

    /// Appends a diagnostic of a tool, with its code put under the tool's
    /// name.
    pub fn add_lint_result(&mut self, tool_id: &str, res: LintResult)
        requires
            old(self).wf(),
        ensures
            final(self).wf(),
            final(self)@ == old(self)@.push(namespaced(tool_id@, res@)),
            count_level(final(self)@, Level::Error) == count_level(old(self)@, Level::Error)
                + if res.level == Level::Error { 1nat } else { 0nat },
            count_level(final(self)@, Level::Warning) == count_level(old(self)@, Level::Warning)
                + if res.level == Level::Warning { 1nat } else { 0nat },
    {
        self.push_result(res.with_tool_code(tool_id));
        assert(self@.drop_last() =~= old(self)@);
    }

    /// Appends the diagnostic that a line match of a tool describes, with
    /// `resolved` (where the matched file was found) as its file and its
    /// code put under the tool's name. A match without a filename is a
    /// configuration error, and leaves the report as it was.
    pub fn add_resolved_match(&mut self, tool_id: &str, m: &MatchFields, resolved: String) -> (r: Result<(), Error>)
        requires
            old(self).wf(),
        ensures
            final(self).wf(),
            r is Ok <==> match_result(m@) is Some,
            r is Ok ==> final(self)@ == old(self)@.push(namespaced(tool_id@,
                LintResultView { filename: Some(resolved@), ..match_result(m@)->0 })),
            r is Err ==> final(self)@ == old(self)@ && r->Err_0.kind == ErrorKind::Configuration,
    {
        match LintResult::from_match(m) {
            Ok(res) => {
                let res = LintResult { filename: Some(resolved), ..res };
                self.add_lint_result(tool_id, res);
                Ok(())
            },
            Err(e) => Err(e),
        }
    }

    /// Appends the diagnostic that a line match of a tool describes, with
    /// its code put under the tool's name. A match without a filename is a
    /// configuration error, and leaves the report as it was.
    pub fn add_match_lint_result(&mut self, tool_id: &str, m: &MatchFields) -> (r: Result<(), Error>)
        requires
            old(self).wf(),
        ensures
            final(self).wf(),
            r is Ok <==> match_result(m@) is Some,
            r is Ok ==> final(self)@ == old(self)@.push(namespaced(tool_id@, match_result(m@)->0)),
            r is Err ==> final(self)@ == old(self)@ && r->Err_0.kind == ErrorKind::Configuration,
    {
        match LintResult::from_match(m) {
            Ok(res) => {
                self.add_lint_result(tool_id, res);
                Ok(())
            },
            Err(e) => Err(e),
        }
    }

    /// Whether any diagnostic is an error.
    pub fn has_errors(&self) -> (r: bool)
        requires
            self.wf(),
        ensures
            r == exists|i: int| 0 <= i < self@.len() && (#[trigger] self@[i]).level == Level::Error,
    {
        proof {
            lemma_count_level_bound(self@, Level::Error);
        }
        self.errors > 0
    }

    /// The number of errors.
    pub fn error_count(&self) -> (r: u64)
        requires
            self.wf(),
        ensures
            r == count_level(self@, Level::Error),
    {
        self.errors as u64
    }

    /// The number of warnings.
    pub fn warnings_count(&self) -> (r: u64)
        requires
            self.wf(),
        ensures
            r == count_level(self@, Level::Warning),
    {
        self.warnings as u64
    }

    /// The diagnostics, in their present order.
    pub fn results(&self) -> (r: &Vec<LintResult>)
        ensures
            views(r@) == self@,
    {
        &self.lint_results
    }

    /// Puts the diagnostics in order: by filename, line, column, code,
    /// message and level.
    pub fn sort(&mut self)
        requires
            old(self).wf(),
        ensures
            final(self).wf(),
            final(self)@ == sort_results(old(self)@),
            is_sorted(final(self)@),
            forall|x: LintResultView| #[trigger] occurrences(final(self)@, x) == occurrences(old(self)@, x),
            count_level(final(self)@, Level::Error) == count_level(old(self)@, Level::Error),
            count_level(final(self)@, Level::Warning) == count_level(old(self)@, Level::Warning),
    {
        sort_lint_results(&mut self.lint_results);
        proof {
            lemma_sort_results_sorted(old(self)@);
            assert forall|x: LintResultView| #[trigger] occurrences(self@, x) == occurrences(old(self)@, x) by {
                lemma_sort_results_permutes(old(self)@, x);
            }
            lemma_count_level_sort(old(self)@, Level::Error);
            lemma_count_level_sort(old(self)@, Level::Warning);
        }
    }
}

} // verus!
