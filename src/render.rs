//! How diagnostics are shown: the human and simple lines, the source
//! excerpt under a diagnostic, the closing summary, and checkstyle XML.
use vstd::prelude::*;
use crate::order::{views, compare_opt_text, opt_text_cmp, lemma_opt_text_cmp};
use crate::pattern::{RegexPattern, regex_accepts, regex_find_of};
use crate::report::{Level, LintResult, LintResultView, LintResultSimpleFormat, Report, level_name, opt_view};
use crate::text::{append_str, push_char, push_decimal, decimal, decimal_string, chars_of, string_of_range, leading_space,
    trailing_space, count_leading_space, count_trailing_space};

verus! {

/// A run of identifier characters: what the caret under a diagnostic
/// underlines.
pub const IDENT_PATTERN: &'static str = r"(?x)
    [\d\p{Lu}\p{Ll}\p{Lt}\p{Lm}\p{Lo}\p{Nl}$_]
    [\d\p{Lu}\p{Ll}\p{Lt}\p{Lm}\p{Lo}\p{Nl}\p{Mn}\p{Mc}\p{Nd}\p{Pc}$_]*
";

/// `dir` without one trailing slash.
pub open spec fn dir_base(dir: Seq<char>) -> Seq<char> {
    if dir.len() > 0 && dir.last() == '/' { dir.drop_last() } else { dir }
}

/// A path as seen from directory `dir`: the part below it, or the whole
/// path where it is not below it.
pub open spec fn relative_path(path: Seq<char>, dir: Seq<char>) -> Seq<char> {
    let d = dir_base(dir);
    if dir.len() == 0 {
        path
    } else if path == d {
        Seq::empty()
    } else if path.len() > d.len() && path.subrange(0, d.len() as int) == d && path[d.len() as int] == '/' {
        path.subrange(d.len() as int + 1, path.len() as int)
    } else {
        path
    }
}

/// How a diagnostic's file is shown: relative to the working directory
/// where it lies below it; nothing for a general issue.
pub open spec fn shown_path(f: Option<Seq<char>>, cwd: Option<Seq<char>>) -> Seq<char> {
    match f {
        None => Seq::empty(),
        Some(p) => match cwd {
            Some(d) => relative_path(p, d),
            None => p,
        },
    }
}

pub open spec fn or_text(t: Option<Seq<char>>, dflt: Seq<char>) -> Seq<char> {
    match t {
        Some(x) => x,
        None => dflt,
    }
}

/// `path:line:col code message`, with `E` and `no info` for what is missing.
pub open spec fn human_head(v: LintResultView, cwd: Option<Seq<char>>) -> Seq<char> {
    shown_path(v.filename, cwd) + ":"@ + decimal(v.line as nat) + ":"@ + decimal(v.column as nat)
        + " "@ + or_text(v.code, "E"@) + " "@ + or_text(v.message, "no info"@)
}

/// `path:line:col:message [code]`, with `no info` and `E` for what is missing.
pub open spec fn simple_text(v: LintResultView, cwd: Option<Seq<char>>) -> Seq<char> {
    shown_path(v.filename, cwd) + ":"@ + decimal(v.line as nat) + ":"@ + decimal(v.column as nat)
        + ":"@ + or_text(v.message, "no info"@) + " ["@ + or_text(v.code, "E"@) + "]"@
}

pub open spec fn repeat_char(c: char, n: nat) -> Seq<char> {
    Seq::new(n, |i: int| c)
}

/// The source line without the white space at its start.
pub open spec fn stripped_line(line: Seq<char>) -> Seq<char> {
    line.subrange(leading_space(line) as int, line.len() as int)
}

/// Where the column falls in the stripped line (0 where it falls in the
/// stripped white space).
pub open spec fn token_start(line: Seq<char>, column: u64) -> nat {
    if column as int - 1 >= leading_space(line) {
        (column - 1 - leading_space(line)) as nat
    } else {
        0
    }
}

/// What follows the column in the stripped line.
pub open spec fn after_column(line: Seq<char>, column: u64) -> Seq<char> {
    let s = stripped_line(line);
    if token_start(line, column) <= s.len() {
        s.subrange(token_start(line, column) as int, s.len() as int)
    } else {
        Seq::empty()
    }
}

/// How many carets underline the token at the column: the length of the
/// first identifier at or after it, else 1.
pub open spec fn token_len(line: Seq<char>, column: u64) -> nat {
    if regex_accepts(IDENT_PATTERN@) {
        match regex_find_of(IDENT_PATTERN@, after_column(line, column)) {
            Some(m) => m.len(),
            None => 1,
        }
    } else {
        1
    }
}

/// The excerpt under a diagnostic: the source line without the white space
/// around it, and where the column is known, a caret line under its token.
pub open spec fn excerpt_text(line: Seq<char>, column: u64) -> Seq<char> {
    let s = stripped_line(line);
    let shown = s.subrange(0, s.len() - trailing_space(s));
    "\n  "@ + shown + if column > 0 {
        "\n  "@ + repeat_char(' ', token_start(line, column)) + repeat_char('^', token_len(line, column))
    } else {
        Seq::empty()
    }
}

/// The human form of a diagnostic; where its file and line are known and
/// the source line is at hand, the excerpt follows.
pub open spec fn human_text(v: LintResultView, cwd: Option<Seq<char>>, source: Option<Seq<char>>) -> Seq<char> {
    human_head(v, cwd) + match source {
        Some(line) => if v.line > 0 && v.filename is Some {
            excerpt_text(line, v.column)
        } else {
            Seq::empty()
        },
        None => Seq::empty(),
    }
}

/// `Lint finished with N error(s) and M warning(s).`
pub open spec fn summary_text(errors: u64, warnings: u64) -> Seq<char> {
    "Lint finished with "@ + decimal(errors as nat) + " error"@ + (if errors != 1 { "s"@ } else { Seq::empty() })
        + " and "@ + decimal(warnings as nat) + " warning"@ + (if warnings != 1 { "s"@ } else { Seq::empty() })
        + "."@
}

fn push_repeat(out: &mut String, c: char, n: u64)
    ensures
        final(out)@ == old(out)@ + repeat_char(c, n as nat),
{
    let mut i: u64 = 0;
    while i < n
        invariant
            i <= n,
            out@ == old(out)@ + repeat_char(c, i as nat),
        decreases n - i,
    {
        push_char(out, c);
        i += 1;
        assert(out@ =~= old(out)@ + repeat_char(c, i as nat));
    }
}

fn push_opt(out: &mut String, t: &Option<String>, dflt: &str)
    ensures
        final(out)@ == old(out)@ + or_text(opt_view(*t), dflt@),
{
    match t {
        Some(x) => append_str(out, x.as_str()),
        None => append_str(out, dflt),
    }
}

/// A path as seen from directory `dir`.
pub fn relative_to(path: &str, dir: &str) -> (r: String)
    ensures
        r@ == relative_path(path@, dir@),
{
    let p = chars_of(path);
    let d0 = chars_of(dir);
    if d0.len() == 0 {
        return path.to_owned();
    }
    let dn: usize = if d0[d0.len() - 1] == '/' { d0.len() - 1 } else { d0.len() };
    let ghost d = dir_base(dir@);
    assert(d =~= d0@.subrange(0, dn as int));
    if p.len() < dn {
        assert(p@ != d);
        return path.to_owned();
    }
    let mut i: usize = 0;
    while i < dn
        invariant
            i <= dn <= p@.len(),
            dn <= d0@.len(),
            p@ == path@,
            d0@ == dir@,
            d == d0@.subrange(0, dn as int),
            d == dir_base(dir@),
            dir@.len() > 0,
            forall|k: int| 0 <= k < i ==> p@[k] == d0@[k],
        decreases dn - i,
    {
        if p[i] != d0[i] {
            assert(p@.subrange(0, dn as int)[i as int] != d[i as int]);
            assert(p@ != d);
            return path.to_owned();
        }
        i += 1;
    }
    assert(p@.subrange(0, dn as int) =~= d);
    if p.len() == dn {
        assert(p@ =~= d);
        return String::new();
    }
    if p[dn] != '/' {
        return path.to_owned();
    }
    let r = string_of_range(p.as_slice(), dn + 1, p.len());
    assert(r@ =~= p@.subrange(dn + 1, p@.len() as int));
    r
}

/// Relies on regex::Regex::find: the text of the first match in `text`,
/// which is found exactly when `captures` finds a match. `p.compiled` is
/// always the compilation of `p.source`.
#[verifier::external_body]
fn regex_find(p: &RegexPattern, text: &str) -> (r: Option<String>)
    ensures
        match r {
            Some(m) => regex_find_of(p@, text@) == Some(m@),
            None => regex_find_of(p@, text@) is None,
        },
{
    p.compiled.find(text).map(|m| m.as_str().to_string())
}

/// The excerpt under a diagnostic at `column` of the source line `line`.
pub fn excerpt(line: &str, column: u64) -> (r: String)
    ensures
        r@ == excerpt_text(line@, column),
{
    let cs = chars_of(line);
    let lead = count_leading_space(cs.as_slice());
    let stripped = string_of_range(cs.as_slice(), lead, cs.len());
    assert(stripped@ =~= stripped_line(line@));
    let sc = chars_of(stripped.as_str());
    let trail = count_trailing_space(sc.as_slice());
    let shown = string_of_range(sc.as_slice(), 0, sc.len() - trail);
    let mut out = String::new();
    append_str(&mut out, "\n  ");
    append_str(&mut out, shown.as_str());
    assert(shown@ =~= stripped@.subrange(0, stripped@.len() - trailing_space(stripped@)));
    if column > 0 {
        let start: u64 = if column - 1 >= lead as u64 { column - 1 - lead as u64 } else { 0 };
        let rest = if start <= sc.len() as u64 {
            string_of_range(sc.as_slice(), start as usize, sc.len())
        } else {
            String::new()
        };
        assert(rest@ =~= after_column(line@, column));
        let len: u64 = match RegexPattern::new(IDENT_PATTERN) {
            Ok(p) => match regex_find(&p, rest.as_str()) {
                Some(m) => m.unicode_len() as u64,
                None => 1,
            },
            Err(_) => 1,
        };
        append_str(&mut out, "\n  ");
        push_repeat(&mut out, ' ', start);
        push_repeat(&mut out, '^', len);
    }
    proof {
        let s = stripped_line(line@);
        let shown_s = s.subrange(0, s.len() - trailing_space(s));
        if column > 0 {
            assert(out@ =~= "\n  "@ + shown_s + ("\n  "@ + repeat_char(' ', token_start(line@, column)) + repeat_char('^', token_len(line@, column))));
        } else {
            assert(out@ =~= "\n  "@ + shown_s + Seq::<char>::empty());
        }
    }
    out
}

fn push_path(out: &mut String, f: &Option<String>, cwd: Option<&str>)
    ensures
        final(out)@ == old(out)@ + shown_path(opt_view(*f), match cwd { Some(d) => Some(d@), None => None }),
{
    match f {
        None => {
            assert(old(out)@ + Seq::<char>::empty() =~= old(out)@);
        },
        Some(p) => match cwd {
            Some(d) => {
                let r = relative_to(p.as_str(), d);
                append_str(out, r.as_str());
            },
            None => append_str(out, p.as_str()),
        },
    }
}

pub open spec fn opt_str_view(s: Option<&str>) -> Option<Seq<char>> {
    match s {
        Some(d) => Some(d@),
        None => None,
    }
}

impl LintResult {
    /// The human form of the diagnostic, seen from the working directory
    /// `cwd`; `source` is the line of the file it points at, where that
    /// could be read.
    pub fn human_format(&self, cwd: Option<&str>, source: Option<&str>) -> (r: String)
        ensures
            r@ == human_text(self@, opt_str_view(cwd), opt_str_view(source)),
    {
        let mut out = String::new();
        push_path(&mut out, &self.filename, cwd);
        append_str(&mut out, ":");
        push_decimal(&mut out, self.line);
        append_str(&mut out, ":");
        push_decimal(&mut out, self.column);
        append_str(&mut out, " ");
        push_opt(&mut out, &self.code, "E");
        append_str(&mut out, " ");
        push_opt(&mut out, &self.message, "no info");
        let ghost head = out@;
        assert(head =~= human_head(self@, opt_str_view(cwd)));
        match source {
            Some(line) => if self.line > 0 && self.filename.is_some() {
                let e = excerpt(line, self.column);
                append_str(&mut out, e.as_str());
            } else {
                assert(out@ =~= head + Seq::<char>::empty());
            },
            None => {
                assert(out@ =~= head + Seq::<char>::empty());
            },
        }
        out
    }

    /// The one-line form for machines.
    pub fn simple_format(&self) -> (r: LintResultSimpleFormat<'_>)
        ensures
            r.result() == self,
    {
        LintResultSimpleFormat { lr: self }
    }
}

impl<'a> LintResultSimpleFormat<'a> {
    pub closed spec fn result(&self) -> &'a LintResult {
        self.lr
    }

    /// `path:line:col:message [code]`, the path seen from `cwd`.
    pub fn render(&self, cwd: Option<&str>) -> (r: String)
        ensures
            r@ == simple_text(self.result()@, opt_str_view(cwd)),
    {
        let lr = self.lr;
        let mut out = String::new();
        push_path(&mut out, &lr.filename, cwd);
        append_str(&mut out, ":");
        push_decimal(&mut out, lr.line);
        append_str(&mut out, ":");
        push_decimal(&mut out, lr.column);
        append_str(&mut out, ":");
        push_opt(&mut out, &lr.message, "no info");
        append_str(&mut out, " [");
        push_opt(&mut out, &lr.code, "E");
        append_str(&mut out, "]");
        assert(out@ =~= simple_text(lr@, opt_str_view(cwd)));
        out
    }
}

/// The line that closes a human report.
pub fn summary_line(errors: u64, warnings: u64) -> (r: String)
    ensures
        r@ == summary_text(errors, warnings),
{
    let mut out = String::new();
    append_str(&mut out, "Lint finished with ");
    push_decimal(&mut out, errors);
    append_str(&mut out, " error");
    if errors != 1 {
        append_str(&mut out, "s");
    }
    let ghost mid = out@;
    append_str(&mut out, " and ");
    push_decimal(&mut out, warnings);
    append_str(&mut out, " warning");
    if warnings != 1 {
        append_str(&mut out, "s");
    }
    append_str(&mut out, ".");
    assert(out@ =~= summary_text(errors, warnings));
    out
}

/// One `<error>` element of a checkstyle document.
pub struct CheckstyleError {
    pub severity: String,
    pub line: u64,
    pub column: u64,
    pub source: String,
    pub message: String,
}

/// One `<file>` element of a checkstyle document, with its errors.
pub struct CheckstyleFile {
    pub name: String,
    pub errors: Vec<CheckstyleError>,
}

pub ghost struct CheckstyleErrorView {
    pub severity: Seq<char>,
    pub line: u64,
    pub column: u64,
    pub source: Seq<char>,
    pub message: Seq<char>,
}

impl View for CheckstyleError {
    type V = CheckstyleErrorView;

    open spec fn view(&self) -> CheckstyleErrorView {
        CheckstyleErrorView {
            severity: self.severity@,
            line: self.line,
            column: self.column,
            source: self.source@,
            message: self.message@,
        }
    }
}

pub open spec fn errors_view(v: Seq<CheckstyleError>) -> Seq<CheckstyleErrorView> {
    v.map_values(|e: CheckstyleError| e@)
}

impl View for CheckstyleFile {
    type V = (Seq<char>, Seq<CheckstyleErrorView>);

    open spec fn view(&self) -> (Seq<char>, Seq<CheckstyleErrorView>) {
        (self.name@, errors_view(self.errors@))
    }
}

pub open spec fn files_view(v: Seq<CheckstyleFile>) -> Seq<(Seq<char>, Seq<CheckstyleErrorView>)> {
    v.map_values(|f: CheckstyleFile| f@)
}

/// `s` with every `:` written as `.`.
pub open spec fn dots_for_colons(s: Seq<char>) -> Seq<char> {
    Seq::new(s.len(), |i: int| if s[i] == ':' { '.' } else { s[i] })
}

/// The checkstyle error for a diagnostic: its level, position, code (with
/// `.` for `:`, `unknown` where there is none) and message.
pub open spec fn checkstyle_error_of(v: LintResultView) -> CheckstyleErrorView {
    CheckstyleErrorView {
        severity: level_name(v.level),
        line: v.line,
        column: v.column,
        source: dots_for_colons(or_text(v.code, "unknown"@)),
        message: or_text(v.message, Seq::empty()),
    }
}

/// The distinct filenames of `s`, in the order they first appear.
pub open spec fn file_keys(s: Seq<LintResultView>) -> Seq<Option<Seq<char>>>
    decreases s.len(),
{
    if s.len() == 0 {
        Seq::empty()
    } else {
        let k = file_keys(s.drop_last());
        if k.contains(s.last().filename) { k } else { k.push(s.last().filename) }
    }
}

/// The checkstyle errors of the diagnostics of `s` in file `key`, in order.
pub open spec fn file_errors(s: Seq<LintResultView>, key: Option<Seq<char>>) -> Seq<CheckstyleErrorView>
    decreases s.len(),
{
    if s.len() == 0 {
        Seq::empty()
    } else {
        let e = file_errors(s.drop_last(), key);
        if s.last().filename == key { e.push(checkstyle_error_of(s.last())) } else { e }
    }
}

/// The name of a file element; general issues go under `<no file>`.
pub open spec fn file_label(key: Option<Seq<char>>) -> Seq<char> {
    match key {
        Some(f) => f,
        None => "<no file>"@,
    }
}

/// The file elements of a checkstyle document: one per distinct filename,
/// in the order of first appearance, each with its diagnostics in order.
pub open spec fn checkstyle_groups(s: Seq<LintResultView>) -> Seq<(Seq<char>, Seq<CheckstyleErrorView>)> {
    file_keys(s).map_values(|k: Option<Seq<char>>| (file_label(k), file_errors(s, k)))
}

fn same_opt_text(a: &Option<String>, b: &Option<String>) -> (r: bool)
    ensures
        r == (opt_view(*a) == opt_view(*b)),
{
    proof {
        lemma_opt_text_cmp(opt_view(*a), opt_view(*b));
        lemma_opt_text_cmp(opt_view(*a), opt_view(*a));
    }
    compare_opt_text(a, b) == 0
}

fn dotted(s: &str) -> (r: String)
    ensures
        r@ == dots_for_colons(s@),
{
    let cs = chars_of(s);
    let mut out = String::new();
    let mut i: usize = 0;
    while i < cs.len()
        invariant
            cs@ == s@,
            i <= cs@.len(),
            out@ == dots_for_colons(s@).subrange(0, i as int),
        decreases cs@.len() - i,
    {
        push_char(&mut out, if cs[i] == ':' { '.' } else { cs[i] });
        i += 1;
        assert(out@ =~= dots_for_colons(s@).subrange(0, i as int));
    }
    assert(dots_for_colons(s@).subrange(0, cs@.len() as int) =~= dots_for_colons(s@));
    out
}

fn checkstyle_error(r: &LintResult) -> (e: CheckstyleError)
    ensures
        e@ == checkstyle_error_of(r@),
{
    let source = match &r.code {
        Some(c) => dotted(c.as_str()),
        None => dotted("unknown"),
    };
    let message = match &r.message {
        Some(m) => m.clone(),
        None => String::new(),
    };
    CheckstyleError {
        severity: r.level.name().to_owned(),
        line: r.line,
        column: r.column,
        source,
        message,
    }
}

pub open spec fn keys_at(s: Seq<LintResultView>, firsts: Seq<usize>) -> Seq<Option<Seq<char>>> {
    firsts.map_values(|f: usize| s[f as int].filename)
}

/// The indices of the first diagnostic of each distinct filename.
fn first_of_each_file(v: &Vec<LintResult>) -> (firsts: Vec<usize>)
    ensures
        forall|j: int| 0 <= j < firsts@.len() ==> #[trigger] firsts@[j] < v@.len(),
        keys_at(views(v@), firsts@) == file_keys(views(v@)),
{
    let ghost s = views(v@);
    let mut firsts: Vec<usize> = Vec::new();
    let mut i: usize = 0;
    while i < v.len()
        invariant
            s == views(v@),
            i <= v@.len(),
            forall|j: int| 0 <= j < firsts@.len() ==> #[trigger] firsts@[j] < i,
            keys_at(s, firsts@) == file_keys(s.subrange(0, i as int)),
        decreases v@.len() - i,
    {
        let ghost pre = s.subrange(0, i as int + 1);
        assert(pre.drop_last() =~= s.subrange(0, i as int));
        assert(pre.last() == v@[i as int]@);
        let mut j: usize = 0;
        let mut found = false;
        while j < firsts.len() && !found
            invariant
                s == views(v@),
                i < v@.len(),
                j <= firsts@.len(),
                forall|q: int| 0 <= q < firsts@.len() ==> #[trigger] firsts@[q] < i,
                keys_at(s, firsts@) == file_keys(s.subrange(0, i as int)),
                found ==> j < firsts@.len() && keys_at(s, firsts@)[j as int] == s[i as int].filename,
                forall|q: int| 0 <= q < j ==> keys_at(s, firsts@)[q] != s[i as int].filename,
            decreases firsts@.len() - j + if found { 0int } else { 1int },
        {
            assert(keys_at(s, firsts@)[j as int] == v@[firsts@[j as int] as int]@.filename);
            if same_opt_text(&v[firsts[j]].filename, &v[i].filename) {
                found = true;
            } else {
                j += 1;
            }
        }
        if found {
            assert(file_keys(s.subrange(0, i as int)).contains(pre.last().filename));
        } else {
            assert(!file_keys(s.subrange(0, i as int)).contains(pre.last().filename));
            let ghost before = firsts@;
            firsts.push(i);
            assert(keys_at(s, firsts@) =~= keys_at(s, before).push(s[i as int].filename));
        }
        i += 1;
    }
    assert(s.subrange(0, v@.len() as int) =~= s);
    firsts
}

/// The checkstyle errors of the diagnostics of `v` whose file is `key`.
fn errors_in_file(v: &Vec<LintResult>, key: &Option<String>) -> (r: Vec<CheckstyleError>)
    ensures
        errors_view(r@) == file_errors(views(v@), opt_view(*key)),
{
    let ghost s = views(v@);
    let mut r: Vec<CheckstyleError> = Vec::new();
    let mut i: usize = 0;
    while i < v.len()
        invariant
            s == views(v@),
            i <= v@.len(),
            errors_view(r@) == file_errors(s.subrange(0, i as int), opt_view(*key)),
        decreases v@.len() - i,
    {
        let ghost pre = s.subrange(0, i as int + 1);
        assert(pre.drop_last() =~= s.subrange(0, i as int));
        assert(pre.last() == v@[i as int]@);
        if same_opt_text(&v[i].filename, key) {
            let ghost before = r@;
            r.push(checkstyle_error(&v[i]));
            assert(errors_view(r@) =~= errors_view(before).push(checkstyle_error_of(v@[i as int]@)));
        }
        i += 1;
    }
    assert(s.subrange(0, v@.len() as int) =~= s);
    r
}

#[verifier::external_type_specification]
#[verifier::external_body]
pub struct ExElement(elementtree::Element);

/// The tag of an element (a plain name, without namespace).
pub uninterp spec fn element_tag(e: elementtree::Element) -> Seq<char>;

/// The attributes of an element, by plain name.
pub uninterp spec fn element_attrs(e: elementtree::Element) -> Map<Seq<char>, Seq<char>>;

/// The children of an element, in order.
pub uninterp spec fn element_children(e: elementtree::Element) -> Seq<elementtree::Element>;

/// A name that `elementtree::QName::from` reads as a plain name: one that
/// does not start with `{`.
pub open spec fn plain_name(s: Seq<char>) -> bool {
    s.len() == 0 || s[0] != '{'
}

/// Relies on elementtree::Element::new: an element with the given tag, no
/// attributes and no children.
#[verifier::external_body]
fn element_new(tag: &str) -> (r: elementtree::Element)
    requires
        plain_name(tag@),
    ensures
        element_tag(r) == tag@,
        element_attrs(r).dom() == Set::<Seq<char>>::empty(),
        element_children(r).len() == 0,
{
    elementtree::Element::new(tag)
}

/// Relies on elementtree::Element::set_attr: sets one attribute, replacing
/// any of that name.
#[verifier::external_body]
fn element_set_attr(e: elementtree::Element, name: &str, value: &str) -> (r: elementtree::Element)
    requires
        plain_name(name@),
    ensures
        element_tag(r) == element_tag(e),
        element_attrs(r) == element_attrs(e).insert(name@, value@),
        element_children(r) == element_children(e),
{
    let mut e = e;
    e.set_attr(name, value);
    e
}

/// Relies on elementtree::Element::append_child: adds a child after the
/// others.
#[verifier::external_body]
fn element_append_child(e: elementtree::Element, child: elementtree::Element) -> (r: elementtree::Element)
    ensures
        element_tag(r) == element_tag(e),
        element_attrs(r) == element_attrs(e),
        element_children(r) == element_children(e).push(child),
{
    let mut e = e;
    e.append_child(child);
    e
}

/// The `<error>` element of a checkstyle error.
pub open spec fn is_error_element(e: elementtree::Element, c: CheckstyleErrorView) -> bool {
    &&& element_tag(e) == "error"@
    &&& element_attrs(e) == Map::<Seq<char>, Seq<char>>::empty().insert("severity"@, c.severity)
        .insert("line"@, decimal(c.line as nat)).insert("column"@, decimal(c.column as nat))
        .insert("source"@, c.source).insert("message"@, c.message)
    &&& element_children(e).len() == 0
}

/// The `<file>` element of a group of checkstyle errors.
pub open spec fn is_file_element(e: elementtree::Element, g: (Seq<char>, Seq<CheckstyleErrorView>)) -> bool {
    &&& element_tag(e) == "file"@
    &&& element_attrs(e) == Map::<Seq<char>, Seq<char>>::empty().insert("name"@, g.0)
    &&& element_children(e).len() == g.1.len()
    &&& forall|k: int| 0 <= k < g.1.len() ==> is_error_element(#[trigger] element_children(e)[k], g.1[k])
}

/// The checkstyle document of a report: a `checkstyle` root of version
/// 4.3 with one `<file>` element per group.
pub open spec fn is_checkstyle_doc(e: elementtree::Element, groups: Seq<(Seq<char>, Seq<CheckstyleErrorView>)>) -> bool {
    &&& element_tag(e) == "checkstyle"@
    &&& element_attrs(e) == Map::<Seq<char>, Seq<char>>::empty().insert("version"@, "4.3"@)
    &&& element_children(e).len() == groups.len()
    &&& forall|j: int| 0 <= j < groups.len() ==> is_file_element(#[trigger] element_children(e)[j], groups[j])
}

fn error_element(c: &CheckstyleError) -> (r: elementtree::Element)
    ensures
        is_error_element(r, c@),
{
    proof {
        reveal_strlit("error");
        reveal_strlit("severity");
        reveal_strlit("line");
        reveal_strlit("column");
        reveal_strlit("source");
        reveal_strlit("message");
    }
    let e = element_new("error");
    assert(element_attrs(e) =~= Map::<Seq<char>, Seq<char>>::empty());
    let e = element_set_attr(e, "severity", c.severity.as_str());
    let line = decimal_string(c.line);
    let e = element_set_attr(e, "line", line.as_str());
    let column = decimal_string(c.column);
    let e = element_set_attr(e, "column", column.as_str());
    let e = element_set_attr(e, "source", c.source.as_str());
    let e = element_set_attr(e, "message", c.message.as_str());
    e
}

fn file_element(f: &CheckstyleFile) -> (r: elementtree::Element)
    ensures
        is_file_element(r, f@),
{
    proof {
        reveal_strlit("file");
        reveal_strlit("name");
    }
    let e = element_new("file");
    assert(element_attrs(e) =~= Map::<Seq<char>, Seq<char>>::empty());
    let mut e = element_set_attr(e, "name", f.name.as_str());
    let ghost attrs = element_attrs(e);
    let mut k: usize = 0;
    while k < f.errors.len()
        invariant
            k <= f.errors@.len(),
            element_tag(e) == "file"@,
            element_attrs(e) == attrs,
            element_children(e).len() == k,
            forall|q: int| 0 <= q < k ==> is_error_element(#[trigger] element_children(e)[q], errors_view(f.errors@)[q]),
        decreases f.errors@.len() - k,
    {
        let child = error_element(&f.errors[k]);
        assert(errors_view(f.errors@)[k as int] == f.errors@[k as int]@);
        let ghost before = element_children(e);
        e = element_append_child(e, child);
        assert forall|q: int| 0 <= q < k + 1 implies is_error_element(#[trigger] element_children(e)[q], errors_view(f.errors@)[q]) by {
            if q < k {
                assert(element_children(e)[q] == before[q]);
            }
        }
        k += 1;
    }
    e
}

impl Report {
    /// The file elements of the report's checkstyle document.
    pub fn checkstyle_files(&self) -> (r: Vec<CheckstyleFile>)
        ensures
            files_view(r@) == checkstyle_groups(self@),
    {
        let v = self.results();
        let firsts = first_of_each_file(v);
        let ghost s = self@;
        let mut r: Vec<CheckstyleFile> = Vec::new();
        let mut j: usize = 0;
        while j < firsts.len()
            invariant
                s == self@,
                views(v@) == s,
                j <= firsts@.len(),
                forall|q: int| 0 <= q < firsts@.len() ==> #[trigger] firsts@[q] < v@.len(),
                keys_at(s, firsts@) == file_keys(s),
                files_view(r@) == checkstyle_groups(s).subrange(0, j as int),
            decreases firsts@.len() - j,
        {
            let key = &v[firsts[j]].filename;
            assert(opt_view(*key) == file_keys(s)[j as int]) by {
                assert(keys_at(s, firsts@)[j as int] == s[firsts@[j as int] as int].filename);
            }
            let name = match key {
                Some(f) => f.clone(),
                None => "<no file>".to_owned(),
            };
            let errors = errors_in_file(v, key);
            let ghost before = r@;
            assert(name@ == file_label(file_keys(s)[j as int]));
            let file = CheckstyleFile { name, errors };
            assert(file@ == checkstyle_groups(s)[j as int]);
            r.push(file);
            assert(files_view(r@) =~= files_view(before).push(checkstyle_groups(s)[j as int]));
            j += 1;
            assert(files_view(r@) =~= checkstyle_groups(s).subrange(0, j as int));
        }
        assert(checkstyle_groups(s).subrange(0, firsts@.len() as int) =~= checkstyle_groups(s));
        r
    }

    /// The report as a checkstyle document: a `checkstyle` root of version
    /// 4.3, with the elements that `checkstyle_files` describes.
    pub fn get_checkstyle_doc(&self) -> (r: elementtree::Element)
        ensures
            is_checkstyle_doc(r, checkstyle_groups(self@)),
    {
        proof {
            reveal_strlit("checkstyle");
            reveal_strlit("version");
        }
        let files = self.checkstyle_files();
        let ghost groups = checkstyle_groups(self@);
        let root = element_new("checkstyle");
        assert(element_attrs(root) =~= Map::<Seq<char>, Seq<char>>::empty());
        let mut root = element_set_attr(root, "version", "4.3");
        let ghost attrs = element_attrs(root);
        let mut j: usize = 0;
        while j < files.len()
            invariant
                j <= files@.len(),
                files_view(files@) == groups,
                element_tag(root) == "checkstyle"@,
                element_attrs(root) == attrs,
                attrs == Map::<Seq<char>, Seq<char>>::empty().insert("version"@, "4.3"@),
                element_children(root).len() == j,
                forall|q: int| 0 <= q < j ==> is_file_element(#[trigger] element_children(root)[q], groups[q]),
            decreases files@.len() - j,
        {
            let child = file_element(&files[j]);
            assert(groups[j as int] == files@[j as int]@);
            let ghost before = element_children(root);
            root = element_append_child(root, child);
            assert forall|q: int| 0 <= q < j + 1 implies is_file_element(#[trigger] element_children(root)[q], groups[q]) by {
                if q < j {
                    assert(element_children(root)[q] == before[q]);
                }
            }
            j += 1;
        }
        root
    }
}

} // verus!
