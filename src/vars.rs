//! Variable references in path templates (`$NAME`, `${NAME}`, `$(NAME)`,
//! `$$`), and joining paths.
use vstd::prelude::*;
use crate::pattern::{field_value, pairs_view, find_value};
use crate::text::{chars_of, string_of_range, push_char, append_str};

verus! {

pub open spec fn is_name_char(c: char) -> bool {
    ('a' <= c && c <= 'z') || ('A' <= c && c <= 'Z') || ('0' <= c && c <= '9') || c == '_'
}

/// How many name characters `t` starts with.
pub open spec fn name_run(t: Seq<char>) -> nat
    decreases t.len(),
{
    if t.len() > 0 && is_name_char(t[0]) { 1 + name_run(t.drop_first()) } else { 0 }
}

/// The index of the first `c` in `t`, or -1.
pub open spec fn index_of(t: Seq<char>, c: char) -> int
    decreases t.len(),
{
    if t.len() == 0 {
        -1
    } else if t[0] == c {
        0
    } else if index_of(t.drop_first(), c) < 0 {
        -1
    } else {
        1 + index_of(t.drop_first(), c)
    }
}

/// The reference at the start of `s`, which starts with `$`: the name it
/// refers to (nothing for `$$`) and how many characters it takes; nothing
/// where no reference starts there.
pub open spec fn var_ref(s: Seq<char>) -> Option<(Option<Seq<char>>, nat)> {
    if s.len() < 2 {
        None
    } else if s[1] == '$' {
        Some((None, 2))
    } else if is_name_char(s[1]) {
        let n = name_run(s.subrange(1, s.len() as int));
        Some((Some(s.subrange(1, 1 + n as int)), 1 + n))
    } else if s[1] == '(' || s[1] == '{' {
        let close = if s[1] == '(' { ')' } else { '}' };
        let k = index_of(s.subrange(2, s.len() as int), close);
        if k >= 1 {
            Some((Some(s.subrange(2, 2 + k)), (k + 3) as nat))
        } else {
            None
        }
    } else {
        None
    }
}

/// The value of a variable: from `vars` first, then from `fallback`, and
/// empty where neither has it.
pub open spec fn var_value(vars: Seq<(Seq<char>, Seq<char>)>, fallback: Seq<(Seq<char>, Seq<char>)>, key: Seq<char>) -> Seq<char> {
    match field_value(vars, key) {
        Some(v) => v,
        None => match field_value(fallback, key) {
            Some(v) => v,
            None => Seq::empty(),
        },
    }
}

/// `s` with each variable reference replaced by its value and `$$` by `$`.
pub open spec fn expand(s: Seq<char>, vars: Seq<(Seq<char>, Seq<char>)>, fallback: Seq<(Seq<char>, Seq<char>)>) -> Seq<char>
    decreases s.len(),
{
    if s.len() == 0 {
        Seq::empty()
    } else if s[0] == '$' && var_ref(s) is Some {
        let (key, n) = var_ref(s)->0;
        let value = match key {
            Some(k) => var_value(vars, fallback, k),
            None => seq!['$'],
        };
        if 0 < n <= s.len() {
            value + expand(s.subrange(n as int, s.len() as int), vars, fallback)
        } else {
            Seq::empty()
        }
    } else {
        seq![s[0]] + expand(s.drop_first(), vars, fallback)
    }
}

proof fn lemma_name_run(t: Seq<char>)
    ensures
        name_run(t) <= t.len(),
        forall|i: int| 0 <= i < name_run(t) ==> is_name_char(#[trigger] t[i]),
        name_run(t) < t.len() ==> !is_name_char(t[name_run(t) as int]),
    decreases t.len(),
{
    if t.len() > 0 && is_name_char(t[0]) {
        lemma_name_run(t.drop_first());
        assert forall|i: int| 0 <= i < name_run(t) implies is_name_char(#[trigger] t[i]) by {
            if i > 0 {
                assert(t[i] == t.drop_first()[i - 1]);
            }
        }
    }
}

proof fn lemma_name_run_unique(t: Seq<char>, n: nat)
    requires
        n <= t.len(),
        forall|i: int| 0 <= i < n ==> is_name_char(#[trigger] t[i]),
        n < t.len() ==> !is_name_char(t[n as int]),
    ensures
        name_run(t) == n,
    decreases t.len(),
{
    if n > 0 {
        assert(is_name_char(t[0]));
        assert forall|i: int| 0 <= i < n - 1 implies is_name_char(#[trigger] t.drop_first()[i]) by {
            assert(t.drop_first()[i] == t[i + 1]);
        }
        lemma_name_run_unique(t.drop_first(), (n - 1) as nat);
    }
}

proof fn lemma_index_of_unique(t: Seq<char>, c: char, k: int)
    requires
        -1 <= k < t.len(),
        k >= 0 ==> t[k] == c,
        forall|i: int| 0 <= i < (if k < 0 { t.len() as int } else { k }) ==> #[trigger] t[i] != c,
    ensures
        index_of(t, c) == k,
    decreases t.len(),
{
    if t.len() > 0 && k != 0 {
        assert(t[0] != c);
        let bound = if k < 0 { t.len() as int } else { k };
        assert forall|i: int| 0 <= i < (if k < 0 { t.drop_first().len() as int } else { k - 1 }) implies #[trigger] t.drop_first()[i] != c by {
            assert(t.drop_first()[i] == t[i + 1]);
        }
        lemma_index_of_unique(t.drop_first(), c, if k < 0 { -1 } else { k - 1 });
    }
}

fn is_name_char_exec(c: char) -> (r: bool)
    ensures
        r == is_name_char(c),
{
    ('a' <= c && c <= 'z') || ('A' <= c && c <= 'Z') || ('0' <= c && c <= '9') || c == '_'
}

/// The value of a variable: from `vars` first, then from `fallback`, and
/// empty where neither has it.
pub fn lookup_var(vars: &Vec<(String, String)>, fallback: &Vec<(String, String)>, key: &str) -> (r: String)
    ensures
        r@ == var_value(pairs_view(vars@), pairs_view(fallback@), key@),
{
    match find_value(vars, key) {
        Some(v) => v,
        None => match find_value(fallback, key) {
            Some(v) => v,
            None => String::new(),
        },
    }
}

/// The reference at index `i` of `cs`, where `cs[i]` is `$`.
fn var_ref_at(cs: &Vec<char>, i: usize) -> (r: Option<(Option<String>, usize)>)
    requires
        i < cs@.len(),
    ensures
        match r {
            None => var_ref(cs@.subrange(i as int, cs@.len() as int)) is None,
            Some((k, n)) => var_ref(cs@.subrange(i as int, cs@.len() as int)) == Some((
                match k { Some(t) => Some(t@), None => None },
                n as nat,
            )) && 0 < n <= cs@.len() - i,
        },
{
    let ghost s = cs@.subrange(i as int, cs@.len() as int);
    if cs.len() - i < 2 {
        return None;
    }
    let c = cs[i + 1];
    assert(s[1] == c);
    if c == '$' {
        return Some((None, 2));
    }
    if is_name_char_exec(c) {
        let mut j: usize = i + 1;
        while j < cs.len() && is_name_char_exec(cs[j])
            invariant
                i + 1 <= j <= cs@.len(),
                forall|q: int| i + 1 <= q < j ==> is_name_char(#[trigger] cs@[q]),
            decreases cs@.len() - j,
        {
            j += 1;
        }
        proof {
            let t = s.subrange(1, s.len() as int);
            assert forall|q: int| 0 <= q < j - i - 1 implies is_name_char(#[trigger] t[q]) by {
                assert(t[q] == cs@[i + 1 + q]);
            }
            if j < cs@.len() {
                assert(t[j - i - 1] == cs@[j as int]);
            }
            lemma_name_run_unique(t, (j - i - 1) as nat);
            assert(s.subrange(1, j - i) =~= cs@.subrange(i + 1, j as int));
        }
        return Some((Some(string_of_range(cs.as_slice(), i + 1, j)), j - i));
    }
    if c == '(' || c == '{' {
        let close = if c == '(' { ')' } else { '}' };
        let mut j: usize = i + 2;
        while j < cs.len() && cs[j] != close
            invariant
                i + 2 <= j <= cs@.len(),
                forall|q: int| i + 2 <= q < j ==> #[trigger] cs@[q] != close,
            decreases cs@.len() - j,
        {
            j += 1;
        }
        proof {
            let t = s.subrange(2, s.len() as int);
            let k: int = if j < cs@.len() { j - i - 2 } else { -1 };
            assert forall|q: int| 0 <= q < (if k < 0 { t.len() as int } else { k }) implies #[trigger] t[q] != close by {
                assert(t[q] == cs@[i + 2 + q]);
            }
            if j < cs@.len() {
                assert(t[k] == cs@[j as int]);
            }
            lemma_index_of_unique(t, close, k);
            if j < cs@.len() {
                assert(s.subrange(2, 2 + k) =~= cs@.subrange(i + 2, j as int));
            }
        }
        if j < cs.len() && j > i + 2 {
            return Some((Some(string_of_range(cs.as_slice(), i + 2, j)), j - i + 1));
        }
        return None;
    }
    None
}

/// Expands the variable references of `s`: `$NAME`, `${NAME}` and
/// `$(NAME)` become the variable's value, taken from `vars`, else from
/// `fallback`, else empty; `$$` becomes `$`; any other `$` stays.
pub fn expand_vars(s: &str, vars: &Vec<(String, String)>, fallback: &Vec<(String, String)>) -> (r: String)
    ensures
        r@ == expand(s@, pairs_view(vars@), pairs_view(fallback@)),
{
    let ghost pv = pairs_view(vars@);
    let ghost pf = pairs_view(fallback@);
    let cs = chars_of(s);
    let n = cs.len();
    let mut out = String::new();
    let mut i: usize = 0;
    assert(cs@.subrange(0, n as int) =~= s@);
    while i < n
        invariant
            n == cs@.len(),
            cs@ == s@,
            pv == pairs_view(vars@),
            pf == pairs_view(fallback@),
            i <= n,
            out@ + expand(cs@.subrange(i as int, n as int), pv, pf) == expand(s@, pv, pf),
        decreases n - i,
    {
        let ghost rest = cs@.subrange(i as int, n as int);
        let ghost before = out@;
        let c = cs[i];
        assert(rest[0] == c);
        let mut step: usize = 1;
        let mut handled = false;
        if c == '$' {
            match var_ref_at(&cs, i) {
                Some((key, m)) => {
                    let ghost r = var_ref(rest)->0;
                    let ghost tail = expand(rest.subrange(m as int, rest.len() as int), pv, pf);
                    assert(rest.subrange(m as int, rest.len() as int) =~= cs@.subrange(i + m, n as int));
                    match key {
                        Some(k) => {
                            let v = lookup_var(vars, fallback, k.as_str());
                            append_str(&mut out, v.as_str());
                            assert(expand(rest, pv, pf) == var_value(pv, pf, k@) + tail);
                            assert(out@ + tail =~= before + expand(rest, pv, pf));
                        },
                        None => {
                            push_char(&mut out, '$');
                            assert(expand(rest, pv, pf) == seq!['$'] + tail);
                            assert(out@ =~= before + seq!['$']);
                            assert(out@ + tail =~= before + expand(rest, pv, pf));
                        },
                    }
                    step = m;
                    handled = true;
                },
                None => {},
            }
        }
        if !handled {
            push_char(&mut out, c);
            assert(rest.drop_first() =~= cs@.subrange(i + 1, n as int));
            assert(expand(rest, pv, pf) == seq![c] + expand(rest.drop_first(), pv, pf));
            assert(out@ =~= before + seq![c]);
            assert(out@ + expand(cs@.subrange(i + 1, n as int), pv, pf) =~= before + expand(rest, pv, pf));
        }
        assert(out@ + expand(cs@.subrange(i + step, n as int), pv, pf) =~= before + expand(rest, pv, pf));
        i += step;
    }
    assert(out@ + expand(cs@.subrange(n as int, n as int), pv, pf) =~= out@);
    out
}

/// `path` taken relative to `base`: an absolute path stands as it is;
/// otherwise the two are joined with one separator.
pub open spec fn join_path(base: Seq<char>, path: Seq<char>) -> Seq<char> {
    if path.len() > 0 && path[0] == '/' {
        path
    } else if base.len() == 0 || base.last() == '/' {
        base + path
    } else {
        base + "/"@ + path
    }
}

/// Joins `path` to `base`, as `Path::join` does for text paths.
pub fn join(base: &str, path: &str) -> (r: String)
    ensures
        r@ == join_path(base@, path@),
{
    let p = chars_of(path);
    if p.len() > 0 && p[0] == '/' {
        return path.to_owned();
    }
    let b = chars_of(base);
    let mut out = base.to_owned();
    if !(b.len() == 0 || b[b.len() - 1] == '/') {
        append_str(&mut out, "/");
    }
    append_str(&mut out, path);
    out
}

} // verus!
