//! A tool bound to its runtimes: which files it covers, what its steps run
//! with, and how the outcomes of its steps add up.
use vstd::prelude::*;
use crate::command::{strings_view, judge, expects_success};
use crate::config::{ToolSpec, LinkSpec, ToolCommand, LintSpec};
use crate::env::env_set;
use crate::errors::{Error, ErrorKind};
use crate::pattern::{Pattern, PatternSource, pattern_matches, field_value, pairs_view};
use crate::render::{relative_to, relative_path};
use crate::runtime::{Runtime, runtime_kind_of, runtime_var};
use crate::vars::{expand, join, join_path};

verus! {

pub open spec fn patterns_view(v: Seq<Pattern>) -> Seq<PatternSource> {
    v.map_values(|p: Pattern| p@)
}

/// Whether any of the patterns matches the path.
pub open spec fn any_matches(pats: Seq<PatternSource>, path: Seq<char>) -> bool {
    exists|i: int| 0 <= i < pats.len() && pattern_matches(#[trigger] pats[i], path)
}

/// The files that the patterns select, in order, each relative to `base`.
pub open spec fn selected_files(pats: Seq<PatternSource>, files: Seq<Seq<char>>, base: Seq<char>) -> Seq<Seq<char>>
    decreases files.len(),
{
    if files.len() == 0 {
        Seq::empty()
    } else {
        let rest = selected_files(pats, files.drop_last(), base);
        if any_matches(pats, files.last()) { rest.push(relative_path(files.last(), base)) } else { rest }
    }
}

/// The indices of the files that the patterns select, in order.
pub open spec fn selected_indices(pats: Seq<PatternSource>, files: Seq<Seq<char>>) -> Seq<int>
    decreases files.len(),
{
    if files.len() == 0 {
        Seq::empty()
    } else {
        let rest = selected_indices(pats, files.drop_last());
        if any_matches(pats, files.last()) { rest.push(files.len() - 1) } else { rest }
    }
}

/// Whether any of the patterns matches the path.
pub fn matches_any(pats: &Vec<Pattern>, path: &str) -> (r: bool)
    ensures
        r == any_matches(patterns_view(pats@), path@),
{
    let ghost pv = patterns_view(pats@);
    let mut i: usize = 0;
    while i < pats.len()
        invariant
            i <= pats@.len(),
            pv == patterns_view(pats@),
            forall|j: int| 0 <= j < i ==> !pattern_matches(#[trigger] pv[j], path@),
        decreases pats@.len() - i,
    {
        if pats[i].match_path(path) {
            assert(pattern_matches(pv[i as int], path@));
            return true;
        }
        i += 1;
    }
    false
}

/// What a lint run of a tool comes to before any step runs.
pub enum LintPlan {
    /// Nothing to do: the run succeeds at once.
    Succeed,
    /// Run the lint steps with these files as extra arguments.
    Run(Vec<String>),
}

/// A tool with its runtimes, ready to run its steps.
pub struct Tool<'a> {
    spec: &'a ToolSpec,
    id: String,
    config_dir: String,
    base_dir: String,
    runtimes: Vec<Runtime>,
}

/// The directory of a tool's own files: the prefix its description gives,
/// else the configuration directory.
pub open spec fn tool_dir_of(spec: ToolSpec, config_dir: Seq<char>) -> Seq<char> {
    match spec.tool_dir_base {
        None => config_dir,
        Some(b) => match spec.remote {
            Some(crate::config::RemoteToolInclude::Git { path: Some(p), .. }) => join_path(b@, crate::config::strip_root(p@)),
            _ => b@,
        },
    }
}

/// The value that the runtimes give variable `k`: the last of them that
/// sets it decides.
pub open spec fn runtimes_env(rts: Seq<Runtime>, k: Seq<char>) -> Option<Seq<char>>
    decreases rts.len(),
{
    if rts.len() == 0 {
        None
    } else {
        let r = rts.last();
        match runtime_var(r.kind(), r.flavor_spec(), r.path_spec(), k) {
            Some(v) => Some(v),
            None => runtimes_env(rts.drop_last(), k),
        }
    }
}

impl<'a> Tool<'a> {
    pub closed spec fn spec_of(&self) -> &'a ToolSpec {
        self.spec
    }

    pub closed spec fn id_spec(&self) -> Seq<char> {
        self.id@
    }

    pub closed spec fn base_dir_spec(&self) -> Seq<char> {
        self.base_dir@
    }

    pub closed spec fn tool_dir_spec(&self) -> Seq<char> {
        tool_dir_of(*self.spec, self.config_dir@)
    }

    pub closed spec fn runtimes_spec(&self) -> Seq<Runtime> {
        self.runtimes@
    }

    /// Binds tool `id` to its runtimes, each living under `cache_dir`. A
    /// runtime of an unknown type is not found.
    pub fn new(id: &str, spec: &'a ToolSpec, config_dir: &str, cache_dir: &str, base_dir: &str) -> (r: Result<Tool<'a>, Error>)
        ensures
            r is Ok <==> forall|i: int| 0 <= i < spec.runtimes@.len()
                ==> (#[trigger] runtime_kind_of(spec.runtimes@[i].0@)) is Some,
            r is Err ==> r->Err_0.kind == ErrorKind::NotFound,
            r is Ok ==> r->Ok_0.spec_of() == spec && r->Ok_0.id_spec() == id@
                && r->Ok_0.base_dir_spec() == base_dir@
                && r->Ok_0.tool_dir_spec() == tool_dir_of(*spec, config_dir@)
                && r->Ok_0.runtimes_spec().len() == spec.runtimes@.len()
                && forall|i: int| 0 <= i < spec.runtimes@.len() ==> (#[trigger] r->Ok_0.runtimes_spec()[i]).created_from(
                    spec.runtimes@[i].0@, spec.runtimes@[i].1, cache_dir@),
    {
        let mut runtimes: Vec<Runtime> = Vec::new();
        let mut i: usize = 0;
        while i < spec.runtimes.len()
            invariant
                i <= spec.runtimes@.len(),
                runtimes@.len() == i,
                forall|j: int| 0 <= j < i ==> (#[trigger] runtime_kind_of(spec.runtimes@[j].0@)) is Some,
                forall|j: int| 0 <= j < i ==> (#[trigger] runtimes@[j]).created_from(
                    spec.runtimes@[j].0@, spec.runtimes@[j].1, cache_dir@),
            decreases spec.runtimes@.len() - i,
        {
            match Runtime::create(spec.runtimes[i].0.as_str(), &spec.runtimes[i].1, cache_dir) {
                Ok(rt) => runtimes.push(rt),
                Err(e) => {
                    return Err(e);
                },
            }
            i += 1;
        }
        Ok(Tool {
            spec,
            id: id.to_owned(),
            config_dir: config_dir.to_owned(),
            base_dir: base_dir.to_owned(),
            runtimes,
        })
    }

    pub fn id(&self) -> (r: &str)
        ensures
            r@ == self.id_spec(),
    {
        self.id.as_str()
    }

    /// The directory of the tool's own files.
    pub fn tool_dir(&self) -> (r: String)
        ensures
            r@ == self.tool_dir_spec(),
    {
        match self.spec.tool_dir_prefix() {
            Some(d) => d,
            None => self.config_dir.clone(),
        }
    }

    /// Adds the directories of all runtimes' programs to `paths`, in the
    /// order of the runtimes.
    pub fn add_search_paths(&self, paths: &mut Vec<String>)
        ensures
            final(paths)@.len() == old(paths)@.len() + self.runtimes_spec().len(),
            final(paths)@.subrange(0, old(paths)@.len() as int) == old(paths)@,
            forall|i: int| 0 <= i < self.runtimes_spec().len()
                ==> final(paths)@[old(paths)@.len() + i]@ == (#[trigger] self.runtimes_spec()[i]).search_dir(),
    {
        let mut i: usize = 0;
        while i < self.runtimes.len()
            invariant
                i <= self.runtimes@.len(),
                paths@.len() == old(paths)@.len() + i,
                paths@.subrange(0, old(paths)@.len() as int) == old(paths)@,
                forall|j: int| 0 <= j < i ==> paths@[old(paths)@.len() + j]@ == (#[trigger] self.runtimes@[j]).search_dir(),
            decreases self.runtimes@.len() - i,
        {
            let ghost before = paths@;
            self.runtimes[i].add_search_paths(paths);
            assert(paths@.subrange(0, before.len() as int) == before);
            assert forall|j: int| 0 <= j < i + 1 implies paths@[old(paths)@.len() + j]@ == (#[trigger] self.runtimes@[j]).search_dir() by {
                if j < i {
                    assert(paths@[old(paths)@.len() + j] == paths@.subrange(0, before.len() as int)[old(paths)@.len() + j]);
                }
            }
            assert(paths@.subrange(0, old(paths)@.len() as int) =~= before.subrange(0, old(paths)@.len() as int));
            i += 1;
        }
    }

    /// The environment the tool's steps run with: what every runtime sets,
    /// in order, and `CALM_TOOL_PATH` naming the tool's directory.
    pub fn env_vars(&self) -> (r: Vec<(String, String)>)
        ensures
            forall|k: Seq<char>| #[trigger] field_value(pairs_view(r@), k) == if k == "CALM_TOOL_PATH"@ {
                Some(self.tool_dir_spec())
            } else {
                runtimes_env(self.runtimes_spec(), k)
            },
    {
        let mut env: Vec<(String, String)> = Vec::new();
        let mut i: usize = 0;
        while i < self.runtimes.len()
            invariant
                i <= self.runtimes@.len(),
                forall|k: Seq<char>| #[trigger] field_value(pairs_view(env@), k)
                    == runtimes_env(self.runtimes@.subrange(0, i as int), k),
            decreases self.runtimes@.len() - i,
        {
            self.runtimes[i].update_env(&mut env);
            assert(self.runtimes@.subrange(0, i as int + 1).drop_last() =~= self.runtimes@.subrange(0, i as int));
            i += 1;
        }
        assert(self.runtimes@.subrange(0, self.runtimes@.len() as int) =~= self.runtimes@);
        let dir = self.tool_dir();
        env_set(&mut env, "CALM_TOOL_PATH", dir.as_str());
        env
    }

    /// Whether the tool lints a file: whether any of its lint patterns
    /// matches the path.
    pub fn does_lint_file(&self, path: &str) -> (r: bool)
        ensures
            r == match self.spec_of().lint {
                Some(l) => any_matches(patterns_view(l.patterns@), path@),
                None => false,
            },
    {
        match &self.spec.lint {
            Some(l) => matches_any(&l.patterns, path),
            None => false,
        }
    }

    /// What a lint run comes to: without a lint configuration it succeeds
    /// at once; with a file selection, the files the lint patterns select
    /// (relative to the base directory) are the arguments, and where none
    /// is selected the run succeeds at once; without a selection the steps
    /// run on the whole project.
    pub fn lint_plan(&self, files: Option<&Vec<String>>) -> (r: LintPlan)
        ensures
            match self.spec_of().lint {
                None => r is Succeed,
                Some(l) => match files {
                    None => r is Run && r->Run_0@.len() == 0,
                    Some(fs) => {
                        let sel = selected_files(patterns_view(l.patterns@), strings_view(fs@), self.base_dir_spec());
                        if sel.len() == 0 { r is Succeed } else { r is Run && strings_view(r->Run_0@) == sel }
                    },
                },
            },
    {
        match &self.spec.lint {
            None => LintPlan::Succeed,
            Some(l) => match files {
                None => LintPlan::Run(Vec::new()),
                Some(fs) => {
                    let sel = select_files(&l.patterns, fs, self.base_dir.as_str());
                    if sel.len() == 0 { LintPlan::Succeed } else { LintPlan::Run(sel) }
                },
            },
        }
    }

    /// The indices of the files that the format patterns select; nothing
    /// where the tool has no format configuration.
    pub fn format_selection(&self, files: &Vec<String>) -> (r: Option<Vec<usize>>)
        ensures
            match self.spec_of().format {
                None => r is None,
                Some(f) => r is Some && r->0@.map_values(|i: usize| i as int)
                    == selected_indices(patterns_view(f.patterns@), strings_view(files@)),
            },
    {
        match &self.spec.format {
            None => None,
            Some(f) => Some(select_indices(&f.patterns, files)),
        }
    }

    /// Where a link step links from and to: the source, with variables
    /// expanded, relative to the tool's directory; the destination relative
    /// to the base directory. Variables come from `vars`, else from `env`.
    pub fn link_paths(&self, link: &LinkSpec, vars: &Vec<(String, String)>, env: &Vec<(String, String)>) -> (r: (String, String))
        ensures
            r.0@ == join_path(self.tool_dir_spec(), expand(link.src@, pairs_view(vars@), pairs_view(env@))),
            r.1@ == join_path(self.base_dir_spec(), expand(match link.dst { Some(d) => d@, None => link.src@ },
                pairs_view(vars@), pairs_view(env@))),
    {
        let dir = self.tool_dir();
        let src = link.src(vars, env);
        let dst = link.dst(vars, env);
        (join(dir.as_str(), src.as_str()), join(self.base_dir.as_str(), dst.as_str()))
    }
}

/// The files that the patterns select, each relative to `base`.
pub fn select_files(pats: &Vec<Pattern>, files: &Vec<String>, base: &str) -> (r: Vec<String>)
    ensures
        strings_view(r@) == selected_files(patterns_view(pats@), strings_view(files@), base@),
{
    let ghost fv = strings_view(files@);
    let mut r: Vec<String> = Vec::new();
    let mut i: usize = 0;
    while i < files.len()
        invariant
            i <= files@.len(),
            fv == strings_view(files@),
            strings_view(r@) == selected_files(patterns_view(pats@), fv.subrange(0, i as int), base@),
        decreases files@.len() - i,
    {
        let ghost pre = fv.subrange(0, i as int + 1);
        assert(pre.drop_last() =~= fv.subrange(0, i as int));
        if matches_any(pats, files[i].as_str()) {
            let rel = relative_to(files[i].as_str(), base);
            let ghost before = r@;
            r.push(rel);
            assert(strings_view(r@) =~= strings_view(before).push(rel@));
        }
        i += 1;
    }
    assert(fv.subrange(0, fv.len() as int) =~= fv);
    r
}

/// The indices of the files that the patterns select.
pub fn select_indices(pats: &Vec<Pattern>, files: &Vec<String>) -> (r: Vec<usize>)
    ensures
        r@.map_values(|i: usize| i as int) == selected_indices(patterns_view(pats@), strings_view(files@)),
{
    let ghost fv = strings_view(files@);
    let mut r: Vec<usize> = Vec::new();
    let mut i: usize = 0;
    while i < files.len()
        invariant
            i <= files@.len(),
            fv == strings_view(files@),
            r@.map_values(|i: usize| i as int) == selected_indices(patterns_view(pats@), fv.subrange(0, i as int)),
        decreases files@.len() - i,
    {
        let ghost pre = fv.subrange(0, i as int + 1);
        assert(pre.drop_last() =~= fv.subrange(0, i as int));
        if matches_any(pats, files[i].as_str()) {
            let ghost before = r@;
            r.push(i);
            assert(r@.map_values(|i: usize| i as int) =~= before.map_values(|i: usize| i as int).push(i as int));
        }
        i += 1;
    }
    assert(fv.subrange(0, fv.len() as int) =~= fv);
    r
}

/// Where a run of steps stands: how many have run, whether all of them
/// succeeded, and whether one ended in an error, which stops the run.
pub ghost struct StepRunView {
    pub total: nat,
    pub next: nat,
    pub ok: bool,
    pub stopped: bool,
}

/// The run after a step's outcome: an error (nothing) stops it; a result
/// moves it on, and a failure is remembered.
pub open spec fn step_record(v: StepRunView, outcome: Option<bool>) -> StepRunView {
    match outcome {
        None => StepRunView { stopped: true, ..v },
        Some(b) => StepRunView { next: v.next + 1, ok: v.ok && b, ..v },
    }
}

/// The steps of a tool, run one after another: all of them run unless one
/// ends in an error, and the run succeeds when all of them did.
pub struct StepRun {
    total: usize,
    next: usize,
    ok: bool,
    stopped: bool,
}

impl View for StepRun {
    type V = StepRunView;

    closed spec fn view(&self) -> StepRunView {
        StepRunView { total: self.total as nat, next: self.next as nat, ok: self.ok, stopped: self.stopped }
    }
}

impl StepRun {
    /// A run of `total` steps that has not started.
    pub fn new(total: usize) -> (r: StepRun)
        ensures
            r@ == (StepRunView { total: total as nat, next: 0, ok: true, stopped: false }),
    {
        StepRun { total, next: 0, ok: true, stopped: false }
    }

    /// The step to run now, if any.
    pub fn next_step(&self) -> (r: Option<usize>)
        ensures
            r == if !self@.stopped && self@.next < self@.total { Some(self@.next as usize) } else { None::<usize> },
    {
        if !self.stopped && self.next < self.total { Some(self.next) } else { None }
    }

    /// Takes in the outcome of the step that ran: an error stops the run.
    pub fn record(&mut self, outcome: &Result<bool, Error>)
        requires
            !old(self)@.stopped,
            old(self)@.next < old(self)@.total,
        ensures
            final(self)@ == step_record(old(self)@, match outcome { Ok(b) => Some(*b), Err(_) => None::<bool> }),
    {
        match outcome {
            Ok(b) => {
                self.next = self.next + 1;
                self.ok = self.ok && *b;
            },
            Err(_) => {
                self.stopped = true;
            },
        }
    }

    /// Whether the run succeeded, once every step has run; nothing while
    /// steps are left or after an error.
    pub fn finished(&self) -> (r: Option<bool>)
        ensures
            r == if !self@.stopped && self@.next >= self@.total { Some(self@.ok) } else { None::<bool> },
    {
        if !self.stopped && self.next >= self.total { Some(self.ok) } else { None }
    }
}

/// An install step runs with no report, so a process that fails is an
/// error, and the tool's remaining install steps do not run; a lint step
/// whose output is parsed may fail, and the steps after it still run.
pub proof fn lemma_failed_step(v: StepRunView, out_parsed: bool, err_parsed: bool)
    requires
        !v.stopped,
        v.next < v.total,
    ensures
        step_record(v, judge(expects_success(false, out_parsed, err_parsed), false)).stopped,
        out_parsed || err_parsed ==> ({
            let w = step_record(v, judge(expects_success(true, out_parsed, err_parsed), false));
            &&& !w.stopped
            &&& w.next == v.next + 1
            &&& !w.ok
        }),
{
}

} // verus!
