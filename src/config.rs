//! The declarative description of tools: their steps, what parses their
//! output, their runtimes and where their files come from.
use vstd::prelude::*;
use crate::errors::{Error, ErrorKind};
use crate::pattern::{Pattern, pairs_view};
use crate::order::same_text;
use crate::text::{chars_of, string_of_range, append_str};
use crate::vars::{expand, expand_vars, join, join_path};
use crate::digest::{sha1_hex, sha1_hex_of};
use vstd::utf8::encode_utf8;
use vstd::string::StrSliceExecFns;

verus! {

/// What a line match is reported as.
#[derive(Clone, Copy, Debug, PartialEq, Eq, Structural)]
pub enum ReportPatternMatch {
    LintResult,
}

/// Parses each line of a stream with a pattern.
pub struct ParseLinesAction {
    pub pattern: Pattern,
    pub report_match: ReportPatternMatch,
}

/// What is done with the lines of one output stream of a step.
pub struct StreamActions {
    pub parse_lines: Option<ParseLinesAction>,
    pub parse_lint_json: bool,
}

/// How a step's command is given: one line for the shell, or the argument
/// vector.
pub enum ToolCommand {
    Shell(String),
    Exec(Vec<String>),
}

/// A link: its source and, where it differs, its destination; both may
/// refer to variables.
pub struct LinkSpec {
    pub src: String,
    pub dst: Option<String>,
}

/// One step of a tool.
pub enum ToolStep {
    Command {
        description: Option<String>,
        cmd: ToolCommand,
        stdout: Option<StreamActions>,
        stderr: Option<StreamActions>,
    },
    Link {
        description: Option<String>,
        link: LinkSpec,
    },
}

/// The files a tool's lint (or format) covers and the steps it runs.
pub struct LintSpec {
    pub patterns: Vec<Pattern>,
    pub run: Vec<ToolStep>,
}

/// The configuration of one runtime of a tool.
pub struct RuntimeConfig {
    /// Some runtimes come in flavors that can be chosen.
    pub flavor: Option<String>,
    /// The packages to install, by name, with their versions.
    pub packages: Vec<(String, String)>,
}

/// Where a tool's own files come from.
pub enum RemoteToolInclude {
    Git {
        git: String,
        rev: Option<String>,
        path: Option<String>,
    },
    Path {
        path: String,
    },
}

/// The description of one tool.
pub struct ToolSpec {
    pub tool_dir_base: Option<String>,
    pub remote: Option<RemoteToolInclude>,
    pub description: Option<String>,
    pub runtimes: Vec<(String, RuntimeConfig)>,
    pub install_steps: Vec<ToolStep>,
    pub lint: Option<LintSpec>,
    pub format: Option<LintSpec>,
}

/// Whether the git hooks of the project are installed.
#[derive(Clone, Copy, Debug, PartialEq, Eq, Structural)]
pub struct HookStatus {
    pub pre_commit_installed: bool,
}

/// A rule of the configuration: files and what to run on them.
pub struct Rule {
    pub patterns: Vec<String>,
    pub run: String,
}

impl RuntimeConfig {
    pub fn flavor(&self) -> (r: Option<&str>)
        ensures
            match r {
                Some(f) => self.flavor is Some && f@ == self.flavor->0@,
                None => self.flavor is None,
            },
    {
        match &self.flavor {
            Some(f) => Some(f.as_str()),
            None => None,
        }
    }

    pub fn packages(&self) -> (r: &Vec<(String, String)>)
        ensures
            r == &self.packages,
    {
        &self.packages
    }
}

/// The first word of a text: what `split_whitespace` gives first.
pub open spec fn first_word(s: Seq<char>) -> Seq<char> {
    let t = s.subrange(crate::text::leading_space(s) as int, s.len() as int);
    t.subrange(0, word_len(t) as int)
}

/// How many characters `t` starts with before white space.
pub open spec fn word_len(t: Seq<char>) -> nat
    decreases t.len(),
{
    if t.len() > 0 && !crate::text::is_space(t[0]) { 1 + word_len(t.drop_first()) } else { 0 }
}

/// The name a step is shown by: the first word of a shell line, the
/// program of an argument vector, `command` where there is none.
pub open spec fn command_name(cmd: ToolCommand) -> Seq<char> {
    match cmd {
        ToolCommand::Shell(line) => if first_word(line@).len() > 0 { first_word(line@) } else { "command"@ },
        ToolCommand::Exec(args) => if args@.len() > 0 { args@[0]@ } else { "command"@ },
    }
}

fn first_word_of(s: &str) -> (r: String)
    ensures
        r@ == first_word(s@),
{
    let cs = chars_of(s);
    let a = crate::text::count_leading_space(cs.as_slice());
    let mut j: usize = a;
    let ghost t = cs@.subrange(a as int, cs@.len() as int);
    assert(cs@.subrange(a as int, cs@.len() as int) =~= t);
    while j < cs.len() && !crate::text::is_space_char(cs[j])
        invariant
            a <= j <= cs@.len(),
            t == cs@.subrange(a as int, cs@.len() as int),
            cs@ == s@,
            word_len(t) == (j - a) + word_len(cs@.subrange(j as int, cs@.len() as int)),
        decreases cs@.len() - j,
    {
        assert(cs@.subrange(j as int, cs@.len() as int).drop_first() =~= cs@.subrange(j as int + 1, cs@.len() as int));
        j += 1;
    }
    assert(word_len(cs@.subrange(j as int, cs@.len() as int)) == 0);
    let r = string_of_range(cs.as_slice(), a, j);
    assert(r@ =~= t.subrange(0, word_len(t) as int));
    r
}

impl ToolCommand {
    /// The name the command is shown by.
    pub fn name(&self) -> (r: String)
        ensures
            r@ == command_name(*self),
    {
        match self {
            ToolCommand::Shell(line) => {
                let w = first_word_of(line.as_str());
                if w.unicode_len() > 0 { w } else { "command".to_owned() }
            },
            ToolCommand::Exec(args) => if args.len() > 0 { args[0].clone() } else { "command".to_owned() },
        }
    }
}

impl ToolStep {
    /// What the step is shown as: its own description, else `Running
    /// <command>` or `Linking <source>`.
    pub fn description(&self) -> (r: String)
        ensures
            r@ == match *self {
                ToolStep::Command { description, cmd, .. } => match description {
                    Some(d) => d@,
                    None => "Running "@ + command_name(cmd),
                },
                ToolStep::Link { description, link } => match description {
                    Some(d) => d@,
                    None => "Linking "@ + link.src@,
                },
            },
    {
        match self {
            ToolStep::Command { description, cmd, .. } => match description {
                Some(d) => d.clone(),
                None => {
                    let mut r = "Running ".to_owned();
                    let n = cmd.name();
                    append_str(&mut r, n.as_str());
                    r
                },
            },
            ToolStep::Link { description, link } => match description {
                Some(d) => d.clone(),
                None => {
                    let mut r = "Linking ".to_owned();
                    append_str(&mut r, link.src.as_str());
                    r
                },
            },
        }
    }

    /// The name of a command step's program; empty for a link.
    pub fn cmd_name(&self) -> (r: String)
        ensures
            r@ == match *self {
                ToolStep::Command { cmd, .. } => command_name(cmd),
                ToolStep::Link { .. } => Seq::empty(),
            },
    {
        match self {
            ToolStep::Command { cmd, .. } => cmd.name(),
            ToolStep::Link { .. } => String::new(),
        }
    }

    pub fn cmd(&self) -> (r: Option<&ToolCommand>)
        ensures
            match *self {
                ToolStep::Command { cmd, .. } => r == Some(&cmd),
                ToolStep::Link { .. } => r is None,
            },
    {
        match self {
            ToolStep::Command { cmd, .. } => Some(cmd),
            ToolStep::Link { .. } => None,
        }
    }

    pub fn link(&self) -> (r: Option<&LinkSpec>)
        ensures
            match *self {
                ToolStep::Link { link, .. } => r == Some(&link),
                ToolStep::Command { .. } => r is None,
            },
    {
        match self {
            ToolStep::Link { link, .. } => Some(link),
            ToolStep::Command { .. } => None,
        }
    }

    pub fn stdout_actions(&self) -> (r: Option<&StreamActions>)
        ensures
            match *self {
                ToolStep::Command { stdout, .. } => match stdout {
                    Some(a) => r == Some(&a),
                    None => r is None,
                },
                ToolStep::Link { .. } => r is None,
            },
    {
        match self {
            ToolStep::Command { stdout, .. } => match stdout {
                Some(a) => Some(a),
                None => None,
            },
            ToolStep::Link { .. } => None,
        }
    }

    pub fn stderr_actions(&self) -> (r: Option<&StreamActions>)
        ensures
            match *self {
                ToolStep::Command { stderr, .. } => match stderr {
                    Some(a) => r == Some(&a),
                    None => r is None,
                },
                ToolStep::Link { .. } => r is None,
            },
    {
        match self {
            ToolStep::Command { stderr, .. } => match stderr {
                Some(a) => Some(a),
                None => None,
            },
            ToolStep::Link { .. } => None,
        }
    }
}

impl LinkSpec {
    /// The source with its variables expanded: from `vars`, else from
    /// `env`, else empty.
    pub fn src(&self, vars: &Vec<(String, String)>, env: &Vec<(String, String)>) -> (r: String)
        ensures
            r@ == expand(self.src@, pairs_view(vars@), pairs_view(env@)),
    {
        expand_vars(self.src.as_str(), vars, env)
    }

    /// The destination with its variables expanded; the source's where the
    /// link names no destination.
    pub fn dst(&self, vars: &Vec<(String, String)>, env: &Vec<(String, String)>) -> (r: String)
        ensures
            r@ == expand(match self.dst { Some(d) => d@, None => self.src@ }, pairs_view(vars@), pairs_view(env@)),
    {
        match &self.dst {
            Some(d) => expand_vars(d.as_str(), vars, env),
            None => self.src(vars, env),
        }
    }
}

/// The destination after an arrow at the start of `t`: white space, `->`,
/// white space, then a non-empty destination.
pub open spec fn arrow_dst(t: Seq<char>) -> Option<Seq<char>> {
    let a = crate::text::leading_space(t) as int;
    if a >= 1 && a + 2 <= t.len() && t[a] == '-' && t[a + 1] == '>' {
        let after = t.subrange(a + 2, t.len() as int);
        let b = crate::text::leading_space(after) as int;
        if b >= 1 && b < after.len() {
            Some(after.subrange(b, after.len() as int))
        } else {
            None
        }
    } else {
        None
    }
}

/// The first index from `k` on where an arrow starts.
pub open spec fn first_arrow(s: Seq<char>, k: int) -> Option<int>
    decreases s.len() - k,
{
    if k < 0 || k >= s.len() {
        None
    } else if arrow_dst(s.subrange(k, s.len() as int)) is Some {
        Some(k)
    } else {
        first_arrow(s, k + 1)
    }
}

/// A link in the configuration: `source`, or `source -> destination` where
/// the source is as short as can be. The empty text is no link.
pub open spec fn link_parts(s: Seq<char>) -> Option<(Seq<char>, Option<Seq<char>>)> {
    if s.len() == 0 {
        None
    } else {
        match first_arrow(s, 1) {
            Some(k) => Some((s.subrange(0, k), arrow_dst(s.subrange(k, s.len() as int)))),
            None => Some((s, None)),
        }
    }
}

/// The destination after an arrow at index `k` of `cs`.
fn arrow_dst_at(cs: &Vec<char>, k: usize) -> (r: Option<String>)
    requires
        k <= cs@.len(),
    ensures
        match r {
            Some(d) => arrow_dst(cs@.subrange(k as int, cs@.len() as int)) == Some(d@),
            None => arrow_dst(cs@.subrange(k as int, cs@.len() as int)) is None,
        },
{
    let ghost t = cs@.subrange(k as int, cs@.len() as int);
    let n = cs.len();
    let mut a: usize = k;
    while a < n && crate::text::is_space_char(cs[a])
        invariant
            k <= a <= n,
            n == cs@.len(),
            t == cs@.subrange(k as int, n as int),
            crate::text::leading_space(t) == (a - k) + crate::text::leading_space(cs@.subrange(a as int, n as int)),
        decreases n - a,
    {
        assert(cs@.subrange(a as int, n as int).drop_first() =~= cs@.subrange(a as int + 1, n as int));
        a += 1;
    }
    assert(crate::text::leading_space(cs@.subrange(a as int, n as int)) == 0);
    if !(a > k && n - a >= 2 && cs[a] == '-' && cs[a + 1] == '>') {
        return None;
    }
    let ghost after = t.subrange((a - k) + 2, t.len() as int);
    assert(after =~= cs@.subrange(a as int + 2, n as int));
    let mut b: usize = a + 2;
    while b < n && crate::text::is_space_char(cs[b])
        invariant
            a + 2 <= b <= n,
            n == cs@.len(),
            after == cs@.subrange(a as int + 2, n as int),
            crate::text::leading_space(after) == (b - a - 2) + crate::text::leading_space(cs@.subrange(b as int, n as int)),
        decreases n - b,
    {
        assert(cs@.subrange(b as int, n as int).drop_first() =~= cs@.subrange(b as int + 1, n as int));
        b += 1;
    }
    assert(crate::text::leading_space(cs@.subrange(b as int, n as int)) == 0);
    if b > a + 2 && b < n {
        let d = string_of_range(cs.as_slice(), b, n);
        assert(d@ =~= after.subrange((b - a - 2) as int, after.len() as int));
        Some(d)
    } else {
        None
    }
}

impl LinkSpec {
    /// Reads a link from its configuration text: `source` or
    /// `source -> destination`. The empty text is a configuration error.
    pub fn parse(s: &str) -> (r: Result<LinkSpec, Error>)
        ensures
            r is Ok <==> link_parts(s@) is Some,
            r is Ok ==> link_parts(s@) == Some((r->Ok_0.src@, match r->Ok_0.dst { Some(d) => Some(d@), None => None })),
            r is Err ==> r->Err_0.kind == ErrorKind::Configuration,
    {
        let cs = chars_of(s);
        let n = cs.len();
        if n == 0 {
            return Err(Error::new(ErrorKind::Configuration, "empty link specification"));
        }
        let mut k: usize = 1;
        while k < n
            invariant
                1 <= k <= n,
                n == cs@.len(),
                cs@ == s@,
                first_arrow(s@, 1) == first_arrow(s@, k as int),
            decreases n - k,
        {
            match arrow_dst_at(&cs, k) {
                Some(d) => {
                    let src = string_of_range(cs.as_slice(), 0, k);
                    return Ok(LinkSpec { src, dst: Some(d) });
                },
                None => {},
            }
            k += 1;
        }
        assert(cs@ =~= s@);
        Ok(LinkSpec { src: s.to_owned(), dst: None })
    }
}

/// A path without the slashes it starts with.
pub open spec fn strip_root(p: Seq<char>) -> Seq<char>
    decreases p.len(),
{
    if p.len() > 0 && p[0] == '/' { strip_root(p.drop_first()) } else { p }
}

/// The bytes a remote source's checksum is taken over: the repository and
/// revision, or the path, each closed by a zero byte.
pub open spec fn include_digest_input(inc: RemoteToolInclude) -> Seq<u8> {
    match inc {
        RemoteToolInclude::Git { git, rev, .. } => match rev {
            Some(r) => encode_utf8(git@).push(0u8) + encode_utf8(r@).push(0u8),
            None => encode_utf8(git@).push(0u8),
        },
        RemoteToolInclude::Path { path } => encode_utf8(path@).push(0u8),
    }
}

impl RemoteToolInclude {
    /// The directory within a repository that holds the tool, without the
    /// slashes it starts with; nothing for a local path.
    pub fn path_prefix(&self) -> (r: Option<String>)
        ensures
            match *self {
                RemoteToolInclude::Git { path, .. } => match path {
                    Some(p) => r is Some && r->0@ == strip_root(p@),
                    None => r is None,
                },
                RemoteToolInclude::Path { .. } => r is None,
            },
    {
        match self {
            RemoteToolInclude::Git { path, .. } => match path {
                Some(p) => {
                    let cs = chars_of(p.as_str());
                    let mut i: usize = 0;
                    assert(cs@.subrange(0, cs@.len() as int) =~= p@);
                    while i < cs.len() && cs[i] == '/'
                        invariant
                            i <= cs@.len(),
                            cs@ == p@,
                            strip_root(p@) == strip_root(cs@.subrange(i as int, cs@.len() as int)),
                        decreases cs@.len() - i,
                    {
                        assert(cs@.subrange(i as int, cs@.len() as int).drop_first() =~= cs@.subrange(i as int + 1, cs@.len() as int));
                        i += 1;
                    }
                    Some(string_of_range(cs.as_slice(), i, cs.len()))
                },
                None => None,
            },
            RemoteToolInclude::Path { .. } => None,
        }
    }

    /// The checksum that names a repository's checkout.
    pub fn checksum(&self) -> (r: String)
        ensures
            r@ == sha1_hex_of(include_digest_input(*self)),
    {
        let mut data: Vec<u8> = Vec::new();
        match self {
            RemoteToolInclude::Git { git, rev, .. } => {
                push_bytes(&mut data, git.as_str());
                data.push(0u8);
                match rev {
                    Some(r) => {
                        push_bytes(&mut data, r.as_str());
                        data.push(0u8);
                    },
                    None => {},
                }
            },
            RemoteToolInclude::Path { path } => {
                push_bytes(&mut data, path.as_str());
                data.push(0u8);
            },
        }
        assert(data@ =~= include_digest_input(*self));
        sha1_hex(&data)
    }

    /// Where the tool's files lie: for a repository, its checkout under
    /// `<cache_dir>/tools`, named by the checksum; for a path, that path
    /// taken relative to `config_dir`.
    pub fn local_path_reference(&self, config_dir: &str, cache_dir: &str) -> (r: String)
        ensures
            r@ == match *self {
                RemoteToolInclude::Git { .. } => join_path(join_path(cache_dir@, "tools"@), sha1_hex_of(include_digest_input(*self))),
                RemoteToolInclude::Path { path } => join_path(config_dir@, path@),
            },
    {
        match self {
            RemoteToolInclude::Git { .. } => {
                let tools = join(cache_dir, "tools");
                let sum = self.checksum();
                join(tools.as_str(), sum.as_str())
            },
            RemoteToolInclude::Path { path } => join(config_dir, path.as_str()),
        }
    }
}

/// What bringing a tool's checkout up to date takes.
#[derive(Clone, Copy, Debug, PartialEq, Eq, Structural)]
pub enum RemoteUpdate {
    /// Clone the repository, at the revision if one is named.
    Clone,
    /// Pull the latest state of the repository.
    Pull,
    /// Nothing: a local path, or a checkout pinned to a revision.
    Keep,
}

impl RemoteToolInclude {
    /// What bringing the checkout up to date takes, given whether it exists.
    pub fn update_action(&self, checked_out: bool) -> (r: RemoteUpdate)
        ensures
            r == match *self {
                RemoteToolInclude::Path { .. } => RemoteUpdate::Keep,
                RemoteToolInclude::Git { rev, .. } => if !checked_out {
                    RemoteUpdate::Clone
                } else if rev is None {
                    RemoteUpdate::Pull
                } else {
                    RemoteUpdate::Keep
                },
            },
    {
        match self {
            RemoteToolInclude::Path { .. } => RemoteUpdate::Keep,
            RemoteToolInclude::Git { rev, .. } => if !checked_out {
                RemoteUpdate::Clone
            } else if rev.is_none() {
                RemoteUpdate::Pull
            } else {
                RemoteUpdate::Keep
            },
        }
    }
}

/// Appends the UTF-8 bytes of `s`.
pub fn push_bytes(data: &mut Vec<u8>, s: &str)
    ensures
        final(data)@ == old(data)@ + encode_utf8(s@),
{
    let b = s.as_bytes_vec();
    let mut i: usize = 0;
    while i < b.len()
        invariant
            i <= b@.len(),
            b@ == encode_utf8(s@),
            data@ == old(data)@ + b@.subrange(0, i as int),
        decreases b@.len() - i,
    {
        data.push(b[i]);
        i += 1;
        assert(data@ =~= old(data)@ + b@.subrange(0, i as int));
    }
    assert(b@.subrange(0, b@.len() as int) =~= b@);
}

/// Whether a runtime of type `name` is among `rts`.
pub open spec fn has_runtime(rts: Seq<(String, RuntimeConfig)>, name: Seq<char>) -> bool {
    exists|j: int| 0 <= j < rts.len() && (#[trigger] rts[j]).0@ == name
}

/// The runtimes of `rts` whose type is not among `other`, in order.
pub open spec fn runtimes_not_in(rts: Seq<(String, RuntimeConfig)>, other: Seq<(String, RuntimeConfig)>) -> Seq<(String, RuntimeConfig)>
    decreases rts.len(),
{
    if rts.len() == 0 {
        Seq::empty()
    } else {
        let rest = runtimes_not_in(rts.drop_last(), other);
        if has_runtime(other, rts.last().0@) { rest } else { rest.push(rts.last()) }
    }
}

impl ToolSpec {
    /// Takes in the description a tool gives of itself: its description and
    /// lint and format configurations replace these where it has them, its
    /// runtimes replace those of the same type, and its install steps come
    /// after these.
    pub fn merge(&mut self, other: ToolSpec)
        ensures
            final(self).description == (match other.description { Some(d) => Some(d), None => old(self).description }),
            final(self).install_steps@ == old(self).install_steps@ + other.install_steps@,
            other.lint is Some ==> final(self).lint == other.lint,
            other.lint is None ==> final(self).lint == old(self).lint,
            other.format is Some ==> final(self).format == other.format,
            other.format is None ==> final(self).format == old(self).format,
            final(self).tool_dir_base == old(self).tool_dir_base,
            final(self).remote == old(self).remote,
            final(self).runtimes@ == runtimes_not_in(old(self).runtimes@, other.runtimes@) + other.runtimes@,
    {
        let ToolSpec { description, runtimes, install_steps, lint, format, .. } = other;
        match description {
            Some(d) => self.description = Some(d),
            None => {},
        }
        let mut kept: Vec<(String, RuntimeConfig)> = Vec::new();
        let mut old_runtimes: Vec<(String, RuntimeConfig)> = Vec::new();
        std::mem::swap(&mut old_runtimes, &mut self.runtimes);
        let ghost orig = old_runtimes@;
        let n = old_runtimes.len();
        let mut i: usize = 0;
        while i < n
            invariant
                i <= n,
                n == orig.len(),
                old_runtimes@ == orig.subrange(i as int, n as int),
                kept@ == runtimes_not_in(orig.subrange(0, i as int), runtimes@),
            decreases n - i,
        {
            let ghost pre = orig.subrange(0, i as int + 1);
            assert(pre.drop_last() =~= orig.subrange(0, i as int));
            assert(old_runtimes@[0] == orig[i as int]);
            let entry = old_runtimes.remove(0);
            assert(old_runtimes@ =~= orig.subrange(i as int + 1, n as int));
            let mut replaced = false;
            let mut j: usize = 0;
            while j < runtimes.len()
                invariant
                    j <= runtimes@.len(),
                    replaced == exists|q: int| 0 <= q < j && (#[trigger] runtimes@[q]).0@ == entry.0@,
                decreases runtimes@.len() - j,
            {
                if same_text(runtimes[j].0.as_str(), entry.0.as_str()) {
                    replaced = true;
                }
                j += 1;
            }
            if !replaced {
                kept.push(entry);
            }
            i += 1;
        }
        assert(orig.subrange(0, n as int) =~= orig);
        let ghost before = kept@;
        let mut k: usize = 0;
        let m = runtimes.len();
        let ghost others = runtimes@;
        let mut rest = runtimes;
        while k < m
            invariant
                k <= m,
                m == others.len(),
                rest@ == others.subrange(k as int, m as int),
                kept@ == before + others.subrange(0, k as int),
            decreases m - k,
        {
            let e = rest.remove(0);
            kept.push(e);
            k += 1;
            assert(kept@ =~= before + others.subrange(0, k as int));
            assert(rest@ =~= others.subrange(k as int, m as int));
        }
        assert(others.subrange(0, m as int) =~= others);
        self.runtimes = kept;
        let mut steps = install_steps;
        self.install_steps.append(&mut steps);
        match lint {
            Some(l) => self.lint = Some(l),
            None => {},
        }
        match format {
            Some(f) => self.format = Some(f),
            None => {},
        }
    }

    /// The directory of the tool's files, where they come from elsewhere:
    /// the local place of that source, and below it the repository's path prefix.
    pub fn tool_dir_prefix(&self) -> (r: Option<String>)
        ensures
            match self.tool_dir_base {
                None => r is None,
                Some(b) => r is Some && r->0@ == match self.remote {
                    Some(RemoteToolInclude::Git { path: Some(p), .. }) => join_path(b@, strip_root(p@)),
                    _ => b@,
                },
            },
    {
        match &self.tool_dir_base {
            None => None,
            Some(b) => {
                let prefix = match &self.remote {
                    Some(inc) => inc.path_prefix(),
                    None => None,
                };
                match prefix {
                    Some(p) => Some(join(b.as_str(), p.as_str())),
                    None => Some(b.clone()),
                }
            },
        }
    }
}

} // verus!
