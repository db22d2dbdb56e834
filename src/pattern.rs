//! Patterns that select files and pick fields out of lines of output: a
//! glob, or a regular expression with named groups.
use vstd::prelude::*;
use crate::errors::{Error, ErrorKind};
use crate::text::{chars_of, string_of_range, leading_space, trailing_space, count_leading_space,
    count_trailing_space, append_str};
use crate::order::same_text;

verus! {

#[verifier::external_type_specification]
#[verifier::external_body]
pub struct ExRegex(regex::Regex);

/// A glob compiled by the glob crate. Held opaque: its type shares its name
/// with this library's `Pattern`, so it cannot be declared by that name.
#[verifier::external_body]
pub struct CompiledGlob {
    inner: glob::Pattern,
}

/// Whether `regex::Regex::new` accepts a regular expression.
pub uninterp spec fn regex_accepts(re: Seq<char>) -> bool;

/// Whether `glob::Pattern::new` accepts a glob.
pub uninterp spec fn glob_accepts(glob: Seq<char>) -> bool;

/// Whether a glob matches a text, as `glob::Pattern::matches` decides it.
pub uninterp spec fn glob_match_of(glob: Seq<char>, text: Seq<char>) -> bool;

/// The first match of a regular expression in a text, as
/// `regex::Regex::captures` finds it: for each named group, in the order of
/// the expression, the name and the text the group matched, if it took part.
pub uninterp spec fn regex_captures_of(re: Seq<char>, text: Seq<char>) -> Option<
    Seq<(Seq<char>, Option<Seq<char>>)>,
>;

/// The first match of a regular expression in a text, as
/// `regex::Regex::find` finds it.
pub uninterp spec fn regex_find_of(re: Seq<char>, text: Seq<char>) -> Option<Seq<char>>;

/// Relies on regex::Regex::new: compiles `re`; whether it succeeds depends
/// on the expression alone.
#[verifier::external_body]
fn regex_new(re: &str) -> (r: Option<regex::Regex>)
    ensures
        r is Some <==> regex_accepts(re@),
{
    regex::Regex::new(re).ok()
}

/// Relies on glob::Pattern::new: compiles `glob`; whether it succeeds depends
/// on the glob alone.
#[verifier::external_body]
fn glob_new(glob: &str) -> (r: Option<CompiledGlob>)
    ensures
        r is Some <==> glob_accepts(glob@),
{
    glob::Pattern::new(glob).ok().map(|inner| CompiledGlob { inner })
}

/// A compiled regular expression together with its text.
pub struct RegexPattern {
    source: String,
    pub(crate) compiled: regex::Regex,
}

/// A compiled glob together with its text.
pub struct GlobPattern {
    source: String,
    compiled: CompiledGlob,
}

impl View for RegexPattern {
    type V = Seq<char>;

    closed spec fn view(&self) -> Seq<char> {
        self.source@
    }
}

impl View for GlobPattern {
    type V = Seq<char>;

    closed spec fn view(&self) -> Seq<char> {
        self.source@
    }
}

pub open spec fn captures_view(groups: Seq<(String, Option<String>)>) -> Seq<(Seq<char>, Option<Seq<char>>)> {
    groups.map_values(|g: (String, Option<String>)| (g.0@, match g.1 {
        Some(t) => Some(t@),
        None => None,
    }))
}

/// Relies on regex::Regex::captures and regex::Regex::capture_names: the
/// first match in `text`, with each named group and what it matched.
/// `p.compiled` is always the compilation of `p.source`: `RegexPattern::new`
/// alone builds the pair.
#[verifier::external_body]
fn regex_captures(p: &RegexPattern, text: &str) -> (r: Option<Vec<(String, Option<String>)>>)
    ensures
        r is None <==> regex_captures_of(p@, text@) is None,
        r is Some ==> captures_view(r->0@) == regex_captures_of(p@, text@)->0,
{
    p.compiled.captures(text).map(|caps| {
        p.compiled.capture_names().flatten().map(|n| {
            (n.to_string(), caps.name(n).map(|m| m.as_str().to_string()))
        }).collect()
    })
}

/// Relies on regex::Regex::is_match: whether `text` holds a match, which is
/// when `captures` finds one.
#[verifier::external_body]
fn regex_is_match(p: &RegexPattern, text: &str) -> (r: bool)
    ensures
        r == regex_captures_of(p@, text@) is Some,
{
    p.compiled.is_match(text)
}

/// Relies on glob::Pattern::matches. `p.compiled` is always the compilation
/// of `p.source`: `GlobPattern::new` alone builds the pair.
#[verifier::external_body]
fn glob_matches(p: &GlobPattern, text: &str) -> (r: bool)
    ensures
        r == glob_match_of(p@, text@),
{
    p.compiled.inner.matches(text)
}

impl RegexPattern {
    /// Compiles a regular expression.
    pub fn new(source: &str) -> (r: Result<RegexPattern, Error>)
        ensures
            r is Ok <==> regex_accepts(source@),
            r is Ok ==> r->Ok_0@ == source@,
            r is Err ==> r->Err_0.kind == ErrorKind::Data,
    {
        match regex_new(source) {
            Some(compiled) => Ok(RegexPattern { source: source.to_owned(), compiled }),
            None => Err(Error::new(ErrorKind::Data, "invalid regular expression")),
        }
    }

    /// The regular expression as it was compiled.
    pub fn as_str(&self) -> (r: &str)
        ensures
            r@ == self@,
    {
        self.source.as_str()
    }

    /// Whether `text` holds a match.
    pub fn is_match(&self, text: &str) -> (r: bool)
        ensures
            r == regex_captures_of(self@, text@) is Some,
    {
        regex_is_match(self, text)
    }

    /// The named groups of the first match in `text`, each with what it
    /// matched; nothing where there is no match.
    pub fn captures(&self, text: &str) -> (r: Option<Vec<(String, Option<String>)>>)
        ensures
            r is None <==> regex_captures_of(self@, text@) is None,
            r is Some ==> captures_view(r->0@) == regex_captures_of(self@, text@)->0,
    {
        regex_captures(self, text)
    }
}

impl GlobPattern {
    /// Compiles a glob.
    pub fn new(source: &str) -> (r: Result<GlobPattern, Error>)
        ensures
            r is Ok <==> glob_accepts(source@),
            r is Ok ==> r->Ok_0@ == source@,
            r is Err ==> r->Err_0.kind == ErrorKind::Configuration,
    {
        match glob_new(source) {
            Some(compiled) => Ok(GlobPattern { source: source.to_owned(), compiled }),
            None => Err(Error::new(ErrorKind::Configuration, "invalid glob pattern")),
        }
    }

    pub fn as_str(&self) -> (r: &str)
        ensures
            r@ == self@,
    {
        self.source.as_str()
    }

    pub fn matches(&self, text: &str) -> (r: bool)
        ensures
            r == glob_match_of(self@, text@),
    {
        glob_matches(self, text)
    }
}

/// The text of `s` without the white space around it.
pub open spec fn trim(s: Seq<char>) -> Seq<char> {
    let t = s.subrange(leading_space(s) as int, s.len() as int);
    t.subrange(0, t.len() - trailing_space(t))
}

/// The index of the last `c` in `t`, or -1.
pub open spec fn last_index_of(t: Seq<char>, c: char) -> int
    decreases t.len(),
{
    if t.len() == 0 {
        -1
    } else if t.last() == c {
        t.len() - 1
    } else {
        last_index_of(t.drop_last(), c)
    }
}

pub open spec fn all_lower_ascii(s: Seq<char>) -> bool {
    forall|i: int| 0 <= i < s.len() ==> 'a' <= #[trigger] s[i] && s[i] <= 'z'
}

/// A pattern text of the form `/body/flags`, white space around it aside,
/// where the flags are lowercase ASCII letters: the body and the flags.
pub open spec fn regex_form(s: Seq<char>) -> Option<(Seq<char>, Seq<char>)> {
    let t = trim(s);
    let k = last_index_of(t, '/');
    if t.len() > 0 && t[0] == '/' && k >= 1 && all_lower_ascii(t.subrange(k + 1, t.len() as int)) {
        Some((t.subrange(1, k), t.subrange(k + 1, t.len() as int)))
    } else {
        None
    }
}

/// The regular expression for a body and its flags: the flags go in front
/// as an inline group.
pub open spec fn regex_text(body: Seq<char>, flags: Seq<char>) -> Seq<char> {
    if flags.len() > 0 {
        "(?"@ + flags + ")"@ + body
    } else {
        body
    }
}

/// What a pattern text stands for.
pub ghost enum PatternSource {
    Regex(Seq<char>),
    Glob(Seq<char>),
}

/// A pattern text is a regular expression in the `/body/flags` form, any
/// other non-empty text is a glob, and the empty text is no pattern.
pub open spec fn pattern_source(s: Seq<char>) -> Option<PatternSource> {
    if s.len() == 0 {
        None
    } else {
        match regex_form(s) {
            Some(bf) => Some(PatternSource::Regex(regex_text(bf.0, bf.1))),
            None => Some(PatternSource::Glob(s)),
        }
    }
}

/// Whether the pattern that a text stands for compiles.
pub open spec fn pattern_compiles(s: Seq<char>) -> bool {
    match pattern_source(s) {
        Some(PatternSource::Regex(re)) => regex_accepts(re),
        Some(PatternSource::Glob(g)) => glob_accepts(g),
        None => false,
    }
}

/// The kind of error for a pattern text that does not compile.
pub open spec fn pattern_error_kind(s: Seq<char>) -> ErrorKind {
    match pattern_source(s) {
        Some(PatternSource::Regex(_)) => ErrorKind::Data,
        _ => ErrorKind::Configuration,
    }
}

proof fn lemma_last_index_of(t: Seq<char>, c: char)
    ensures
        -1 <= last_index_of(t, c) < t.len(),
        last_index_of(t, c) >= 0 ==> t[last_index_of(t, c)] == c,
        forall|j: int| last_index_of(t, c) < j < t.len() ==> #[trigger] t[j] != c,
    decreases t.len(),
{
    if t.len() > 0 && t.last() != c {
        lemma_last_index_of(t.drop_last(), c);
        assert forall|j: int| last_index_of(t, c) < j < t.len() implies #[trigger] t[j] != c by {
            if j < t.len() - 1 {
                assert(t[j] == t.drop_last()[j]);
            }
        }
    }
}

proof fn lemma_last_index_of_unique(t: Seq<char>, c: char, k: int)
    requires
        -1 <= k < t.len(),
        k >= 0 ==> t[k] == c,
        forall|j: int| k < j < t.len() ==> #[trigger] t[j] != c,
    ensures
        last_index_of(t, c) == k,
    decreases t.len(),
{
    if t.len() > 0 && k < t.len() - 1 {
        assert(t[t.len() - 1] != c);
        assert forall|j: int| k < j < t.drop_last().len() implies #[trigger] t.drop_last()[j] != c by {
            assert(t.drop_last()[j] == t[j]);
        }
        lemma_last_index_of_unique(t.drop_last(), c, k);
    }
}

/// The regular expression that a pattern text in the `/body/flags` form
/// stands for; nothing for any other text.
pub fn regex_text_of(s: &str) -> (r: Option<String>)
    ensures
        r is Some <==> regex_form(s@) is Some,
        r is Some ==> Some(PatternSource::Regex(r->0@)) == pattern_source(s@),
{
    let cs = chars_of(s);
    let a = count_leading_space(cs.as_slice());
    let ghost t0 = cs@.subrange(a as int, cs@.len() as int);
    let mut tail: Vec<char> = Vec::new();
    let mut i: usize = a;
    while i < cs.len()
        invariant
            a <= i <= cs@.len(),
            tail@ == cs@.subrange(a as int, i as int),
        decreases cs@.len() - i,
    {
        tail.push(cs[i]);
        i += 1;
    }
    assert(tail@ == t0);
    let b = count_trailing_space(tail.as_slice());
    let n = tail.len() - b;
    let ghost t = tail@.subrange(0, n as int);
    assert(t == trim(s@));
    if n == 0 || tail[0] != '/' {
        return None;
    }
    // the last slash of the trimmed text
    let mut k: usize = n - 1;
    while k > 0 && tail[k] != '/'
        invariant
            k < n <= tail@.len(),
            t == tail@.subrange(0, n as int),
            forall|j: int| k < j < n ==> #[trigger] t[j] != '/',
        decreases k,
    {
        k -= 1;
    }
    proof {
        assert(t[k as int] == tail@[k as int]);
        if k > 0 || t[0] == '/' {
            lemma_last_index_of_unique(t, '/', k as int);
        }
    }
    if k == 0 {
        proof {
            lemma_last_index_of_unique(t, '/', 0);
        }
        return None;
    }
    let mut j: usize = k + 1;
    while j < n
        invariant
            k < j <= n,
            n <= tail@.len(),
            t == tail@.subrange(0, n as int),
            t == trim(s@),
            t.len() > 0 && t[0] == '/',
            last_index_of(t, '/') == k,
            forall|q: int| k < q < j ==> 'a' <= #[trigger] tail@[q] && tail@[q] <= 'z',
        decreases n - j,
    {
        if !('a' <= tail[j] && tail[j] <= 'z') {
            proof {
                let fl = t.subrange(k as int + 1, n as int);
                assert(fl[j - k - 1] == tail@[j as int]);
            }
            return None;
        }
        j += 1;
    }
    let ghost fl = t.subrange(k as int + 1, n as int);
    assert(all_lower_ascii(fl)) by {
        assert forall|q: int| 0 <= q < fl.len() implies 'a' <= #[trigger] fl[q] && fl[q] <= 'z' by {
            assert(fl[q] == tail@[k + 1 + q]);
        }
    }
    let body = string_of_range(tail.as_slice(), 1, k);
    let flags = string_of_range(tail.as_slice(), k + 1, n);
    assert(body@ =~= t.subrange(1, k as int));
    assert(flags@ =~= fl);
    if k + 1 < n {
        let mut out = String::new();
        append_str(&mut out, "(?");
        append_str(&mut out, flags.as_str());
        append_str(&mut out, ")");
        append_str(&mut out, body.as_str());
        assert(out@ =~= "(?"@ + flags@ + ")"@ + body@);
        Some(out)
    } else {
        Some(body)
    }
}

/// A compiled pattern.
pub enum Pattern {
    Regex(RegexPattern),
    Glob(GlobPattern),
}

impl View for Pattern {
    type V = PatternSource;

    open spec fn view(&self) -> PatternSource {
        match self {
            Pattern::Regex(p) => PatternSource::Regex(p@),
            Pattern::Glob(p) => PatternSource::Glob(p@),
        }
    }
}

/// Whether a pattern matches a whole text.
pub open spec fn pattern_matches(p: PatternSource, text: Seq<char>) -> bool {
    match p {
        PatternSource::Regex(re) => regex_captures_of(re, text) is Some,
        PatternSource::Glob(g) => glob_match_of(g, text),
    }
}

/// The named groups that took part in a match, each with its text; the
/// groups that did not take part are left out.
pub open spec fn present_groups(groups: Seq<(Seq<char>, Option<Seq<char>>)>) -> Seq<(Seq<char>, Seq<char>)>
    decreases groups.len(),
{
    if groups.len() == 0 {
        Seq::empty()
    } else {
        let rest = present_groups(groups.drop_last());
        match groups.last().1 {
            Some(t) => rest.push((groups.last().0, t)),
            None => rest,
        }
    }
}

/// Whether `f` is a group of `groups` that took part in the match, with
/// what it matched.
pub open spec fn is_present_group(groups: Seq<(Seq<char>, Option<Seq<char>>)>, f: (Seq<char>, Seq<char>)) -> bool {
    exists|j: int| 0 <= j < groups.len() && #[trigger] groups[j] == (f.0, Some(f.1))
}

/// Whether the group `g`, which took part in the match, is among `fields`.
pub open spec fn is_field(fields: Seq<(Seq<char>, Seq<char>)>, g: (Seq<char>, Option<Seq<char>>)) -> bool {
    exists|i: int| 0 <= i < fields.len() && #[trigger] fields[i] == (g.0, g.1->0)
}

/// The fields of a match are exactly its named groups that took part in it:
/// each field is such a group with what it matched, and each such group is
/// a field.
pub proof fn lemma_present_groups(groups: Seq<(Seq<char>, Option<Seq<char>>)>)
    ensures
        forall|i: int| 0 <= i < present_groups(groups).len()
            ==> is_present_group(groups, #[trigger] present_groups(groups)[i]),
        forall|j: int| 0 <= j < groups.len() && (#[trigger] groups[j]).1 is Some
            ==> is_field(present_groups(groups), groups[j]),
    decreases groups.len(),
{
    if groups.len() > 0 {
        let g = groups.drop_last();
        lemma_present_groups(g);
        let p = present_groups(groups);
        let q = present_groups(g);
        assert forall|i: int| 0 <= i < p.len() implies is_present_group(groups, #[trigger] p[i]) by {
            if i < q.len() {
                assert(p[i] == q[i]);
                assert(is_present_group(g, q[i]));
                let j = choose|j: int| 0 <= j < g.len() && #[trigger] g[j] == (q[i].0, Some(q[i].1));
                assert(groups[j] == g[j]);
            } else {
                assert(groups[groups.len() - 1] == (p[i].0, Some(p[i].1)));
            }
        }
        assert forall|j: int| 0 <= j < groups.len() && (#[trigger] groups[j]).1 is Some implies is_field(p, groups[j]) by {
            if j < g.len() {
                assert(g[j] == groups[j]);
                assert(is_field(q, g[j]));
                let i = choose|i: int| 0 <= i < q.len() && #[trigger] q[i] == (g[j].0, g[j].1->0);
                assert(p[i] == q[i]);
            } else {
                assert(p[p.len() - 1] == (groups[j].0, groups[j].1->0));
            }
        }
    }
}

/// The fields that a pattern picks out of a line: for a regular expression,
/// the named groups that took part in the match; for a glob, none.
pub open spec fn line_fields(p: PatternSource, text: Seq<char>) -> Option<Seq<(Seq<char>, Seq<char>)>> {
    match p {
        PatternSource::Regex(re) => match regex_captures_of(re, text) {
            Some(groups) => Some(present_groups(groups)),
            None => None,
        },
        PatternSource::Glob(g) => if glob_match_of(g, text) {
            Some(Seq::empty())
        } else {
            None
        },
    }
}

/// The value of the first field named `key`.
pub open spec fn field_value(fields: Seq<(Seq<char>, Seq<char>)>, key: Seq<char>) -> Option<Seq<char>>
    decreases fields.len(),
{
    if fields.len() == 0 {
        None
    } else if fields[0].0 == key {
        Some(fields[0].1)
    } else {
        field_value(fields.drop_first(), key)
    }
}

/// Named fields picked out of a line, in the order of the pattern.
pub struct MatchFields {
    entries: Vec<(String, String)>,
}

pub open spec fn pairs_view(v: Seq<(String, String)>) -> Seq<(Seq<char>, Seq<char>)> {
    v.map_values(|e: (String, String)| (e.0@, e.1@))
}

impl View for MatchFields {
    type V = Seq<(Seq<char>, Seq<char>)>;

    closed spec fn view(&self) -> Seq<(Seq<char>, Seq<char>)> {
        pairs_view(self.entries@)
    }
}

impl MatchFields {
    /// No fields.
    pub fn new() -> (r: MatchFields)
        ensures
            r@ == Seq::<(Seq<char>, Seq<char>)>::empty(),
    {
        let r = MatchFields { entries: Vec::new() };
        assert(r@ =~= Seq::<(Seq<char>, Seq<char>)>::empty());
        r
    }

    /// Adds a field after the others.
    pub fn push(&mut self, name: &str, value: &str)
        ensures
            final(self)@ == old(self)@.push((name@, value@)),
    {
        self.entries.push((name.to_owned(), value.to_owned()));
        assert(pairs_view(self.entries@) =~= pairs_view(old(self).entries@).push((name@, value@)));
    }

    /// The fields of a match: each named group that took part in it, with
    /// what it matched, in the order of the groups.
    pub fn from_groups(groups: Vec<(String, Option<String>)>) -> (r: MatchFields)
        ensures
            r@ == present_groups(captures_view(groups@)),
    {
        let mut r = MatchFields::new();
        let mut i: usize = 0;
        while i < groups.len()
            invariant
                i <= groups@.len(),
                r@ == present_groups(captures_view(groups@.subrange(0, i as int))),
            decreases groups@.len() - i,
        {
            let ghost pre = groups@.subrange(0, i as int + 1);
            assert(pre.drop_last() =~= groups@.subrange(0, i as int));
            assert(captures_view(pre).drop_last() =~= captures_view(groups@.subrange(0, i as int)));
            assert(captures_view(pre).last() == captures_view(groups@)[i as int]);
            match &groups[i].1 {
                Some(t) => {
                    r.push(groups[i].0.as_str(), t.as_str());
                },
                None => {},
            }
            i += 1;
        }
        assert(groups@.subrange(0, groups@.len() as int) =~= groups@);
        r
    }

    /// The number of fields.
    pub fn len(&self) -> (r: usize)
        ensures
            r == self@.len(),
    {
        self.entries.len()
    }

    /// The value of the field named `key`.
    pub fn get(&self, key: &str) -> (r: Option<String>)
        ensures
            match r {
                Some(t) => field_value(self@, key@) == Some(t@),
                None => field_value(self@, key@) is None,
            },
    {
        find_value(&self.entries, key)
    }
}

/// The value of the first entry named `key`.
pub fn find_value(entries: &Vec<(String, String)>, key: &str) -> (r: Option<String>)
    ensures
        match r {
            Some(t) => field_value(pairs_view(entries@), key@) == Some(t@),
            None => field_value(pairs_view(entries@), key@) is None,
        },
{
    let ghost all = pairs_view(entries@);
    let mut i: usize = 0;
    assert(all.subrange(0, all.len() as int) =~= all);
    while i < entries.len()
        invariant
            i <= all.len(),
            all == pairs_view(entries@),
            field_value(all, key@) == field_value(all.subrange(i as int, all.len() as int), key@),
        decreases all.len() - i,
    {
        let ghost rest = all.subrange(i as int, all.len() as int);
        assert(rest.drop_first() =~= all.subrange(i as int + 1, all.len() as int));
        assert(rest[0] == (entries@[i as int].0@, entries@[i as int].1@));
        if same_text(entries[i].0.as_str(), key) {
            return Some(entries[i].1.clone());
        }
        i += 1;
    }
    None
}

impl Pattern {
    /// Compiles a pattern from its configuration text: `/body/flags` is a
    /// regular expression whose flags go in front of it as an inline group,
    /// any other non-empty text is a glob, and the empty text is refused.
    pub fn from_config(s: &str) -> (r: Result<Pattern, Error>)
        ensures
            r is Ok <==> pattern_compiles(s@),
            r is Ok ==> pattern_source(s@) == Some(r->Ok_0@),
            r is Err ==> r->Err_0.kind == pattern_error_kind(s@),
    {
        if s.unicode_len() == 0 {
            return Err(Error::new(ErrorKind::Configuration, "empty pattern"));
        }
        match regex_text_of(s) {
            Some(re) => match RegexPattern::new(re.as_str()) {
                Ok(p) => Ok(Pattern::Regex(p)),
                Err(e) => Err(e),
            },
            None => match GlobPattern::new(s) {
                Ok(p) => Ok(Pattern::Glob(p)),
                Err(e) => Err(e),
            },
        }
    }

    /// Whether the pattern matches a path, as a whole for a glob and
    /// anywhere in it for a regular expression.
    pub fn match_path(&self, path: &str) -> (r: bool)
        ensures
            r == pattern_matches(self@, path@),
    {
        match self {
            Pattern::Regex(p) => p.is_match(path),
            Pattern::Glob(p) => p.matches(path),
        }
    }

    /// The fields that the pattern picks out of a line; nothing where it
    /// does not match.
    pub fn match_str(&self, text: &str) -> (r: Option<MatchFields>)
        ensures
            r is Some <==> line_fields(self@, text@) is Some,
            r is Some ==> r->0@ == line_fields(self@, text@)->0,
    {
        match self {
            Pattern::Regex(p) => match p.captures(text) {
                Some(groups) => Some(MatchFields::from_groups(groups)),
                None => None,
            },
            Pattern::Glob(p) => if p.matches(text) {
                Some(MatchFields::new())
            } else {
                None
            },
        }
    }
}

} // verus!
