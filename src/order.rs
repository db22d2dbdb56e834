//! The total order on diagnostics, and sorting by insertion under it.
use vstd::prelude::*;
use crate::report::{LintResult, LintResultView, level_rank, opt_view};
use crate::text::chars_of;

verus! {

/// Three-way comparison of two texts, character by character.
pub open spec fn text_cmp(a: Seq<char>, b: Seq<char>) -> int
    decreases a.len(),
{
    if a.len() == 0 {
        if b.len() == 0 { 0 } else { -1 }
    } else if b.len() == 0 {
        1
    } else if a[0] < b[0] {
        -1
    } else if a[0] > b[0] {
        1
    } else {
        text_cmp(a.drop_first(), b.drop_first())
    }
}

/// Absent texts come before present ones.
pub open spec fn opt_text_cmp(a: Option<Seq<char>>, b: Option<Seq<char>>) -> int {
    match (a, b) {
        (None, None) => 0,
        (None, Some(_)) => -1,
        (Some(_), None) => 1,
        (Some(x), Some(y)) => text_cmp(x, y),
    }
}

pub open spec fn num_cmp(a: int, b: int) -> int {
    if a < b { -1 } else if a > b { 1 } else { 0 }
}

/// Diagnostics compare by filename, line, column, code, message, level,
/// in that order.
pub open spec fn result_cmp(a: LintResultView, b: LintResultView) -> int {
    let c1 = opt_text_cmp(a.filename, b.filename);
    let c2 = num_cmp(a.line as int, b.line as int);
    let c3 = num_cmp(a.column as int, b.column as int);
    let c4 = opt_text_cmp(a.code, b.code);
    let c5 = opt_text_cmp(a.message, b.message);
    let c6 = num_cmp(level_rank(a.level), level_rank(b.level));
    if c1 != 0 { c1 } else if c2 != 0 { c2 } else if c3 != 0 { c3 }
    else if c4 != 0 { c4 } else if c5 != 0 { c5 } else { c6 }
}

pub open spec fn result_le(a: LintResultView, b: LintResultView) -> bool {
    result_cmp(a, b) <= 0
}

/// Every earlier element is at most every later one.
pub open spec fn is_sorted(s: Seq<LintResultView>) -> bool {
    forall|i: int, j: int| 0 <= i < j < s.len() ==> result_le(#[trigger] s[i], #[trigger] s[j])
}

/// Where `x` goes in `s`: before the first element it is at most.
pub open spec fn insert_pos(s: Seq<LintResultView>, x: LintResultView) -> nat
    decreases s.len(),
{
    if s.len() == 0 {
        0
    } else if result_le(x, s[0]) {
        0
    } else {
        1 + insert_pos(s.drop_first(), x)
    }
}

pub open spec fn insert_sorted(s: Seq<LintResultView>, x: LintResultView) -> Seq<LintResultView> {
    s.insert(insert_pos(s, x) as int, x)
}

/// Insertion sort: the elements of `s` inserted one by one, from the first.
pub open spec fn sort_results(s: Seq<LintResultView>) -> Seq<LintResultView>
    decreases s.len(),
{
    if s.len() == 0 {
        s
    } else {
        insert_sorted(sort_results(s.drop_last()), s.last())
    }
}

proof fn lemma_text_cmp(a: Seq<char>, b: Seq<char>)
    ensures
        text_cmp(a, b) == -text_cmp(b, a),
        -1 <= text_cmp(a, b) <= 1,
        text_cmp(a, b) == 0 ==> a == b,
    decreases a.len(),
{
    if a.len() > 0 && b.len() > 0 {
        lemma_text_cmp(a.drop_first(), b.drop_first());
        if text_cmp(a, b) == 0 {
            assert(a =~= seq![a[0]] + a.drop_first());
            assert(b =~= seq![b[0]] + b.drop_first());
        }
    }
}

proof fn lemma_text_cmp_trans(a: Seq<char>, b: Seq<char>, c: Seq<char>)
    requires
        text_cmp(a, b) <= 0,
        text_cmp(b, c) <= 0,
    ensures
        text_cmp(a, c) <= 0,
    decreases a.len(),
{
    if a.len() > 0 && b.len() > 0 && c.len() > 0 && a[0] == b[0] && b[0] == c[0] {
        lemma_text_cmp_trans(a.drop_first(), b.drop_first(), c.drop_first());
    }
}

pub proof fn lemma_opt_text_cmp(a: Option<Seq<char>>, b: Option<Seq<char>>)
    ensures
        opt_text_cmp(a, b) == -opt_text_cmp(b, a),
        -1 <= opt_text_cmp(a, b) <= 1,
        opt_text_cmp(a, b) == 0 ==> a == b,
{
    if a is Some && b is Some {
        lemma_text_cmp(a->0, b->0);
    }
}

proof fn lemma_opt_text_cmp_trans(a: Option<Seq<char>>, b: Option<Seq<char>>, c: Option<Seq<char>>)
    ensures
        opt_text_cmp(a, b) <= 0 && opt_text_cmp(b, c) <= 0 ==> opt_text_cmp(a, c) <= 0,
        opt_text_cmp(a, b) < 0 && opt_text_cmp(b, c) <= 0 ==> opt_text_cmp(a, c) < 0,
        opt_text_cmp(a, b) <= 0 && opt_text_cmp(b, c) < 0 ==> opt_text_cmp(a, c) < 0,
{
    lemma_opt_text_cmp(a, b);
    lemma_opt_text_cmp(b, c);
    lemma_opt_text_cmp(a, c);
    if a is Some && b is Some && c is Some {
        if opt_text_cmp(a, b) <= 0 && opt_text_cmp(b, c) <= 0 {
            lemma_text_cmp_trans(a->0, b->0, c->0);
        }
    }
}

/// The comparison is antisymmetric, and only equal diagnostics compare equal.
pub proof fn lemma_result_cmp(a: LintResultView, b: LintResultView)
    ensures
        result_cmp(a, b) == -result_cmp(b, a),
        result_cmp(a, b) == 0 ==> a == b,
{
    lemma_opt_text_cmp(a.filename, b.filename);
    lemma_opt_text_cmp(a.code, b.code);
    lemma_opt_text_cmp(a.message, b.message);
    if result_cmp(a, b) == 0 {
        assert(a.level == b.level);
    }
}

/// The comparison is transitive.
pub proof fn lemma_result_le_trans(a: LintResultView, b: LintResultView, c: LintResultView)
    requires
        result_le(a, b),
        result_le(b, c),
    ensures
        result_le(a, c),
{
    lemma_result_cmp(a, b);
    lemma_result_cmp(b, c);
    lemma_result_cmp(a, c);
    lemma_opt_text_cmp_trans(a.filename, b.filename, c.filename);
    lemma_opt_text_cmp_trans(a.code, b.code, c.code);
    lemma_opt_text_cmp_trans(a.message, b.message, c.message);
    lemma_opt_text_cmp(a.filename, b.filename);
    lemma_opt_text_cmp(b.filename, c.filename);
    lemma_opt_text_cmp(a.filename, c.filename);
    lemma_opt_text_cmp(a.code, b.code);
    lemma_opt_text_cmp(b.code, c.code);
    lemma_opt_text_cmp(a.code, c.code);
    lemma_opt_text_cmp(a.message, b.message);
    lemma_opt_text_cmp(b.message, c.message);
    lemma_opt_text_cmp(a.message, c.message);
}

proof fn lemma_insert_pos(s: Seq<LintResultView>, x: LintResultView)
    ensures
        insert_pos(s, x) <= s.len(),
        forall|k: int| 0 <= k < insert_pos(s, x) ==> !result_le(x, #[trigger] s[k]),
        insert_pos(s, x) < s.len() ==> result_le(x, s[insert_pos(s, x) as int]),
    decreases s.len(),
{
    if s.len() > 0 && !result_le(x, s[0]) {
        lemma_insert_pos(s.drop_first(), x);
        assert forall|k: int| 0 <= k < insert_pos(s, x) implies !result_le(x, #[trigger] s[k]) by {
            if k > 0 {
                assert(s[k] == s.drop_first()[k - 1]);
            }
        }
    }
}

pub proof fn lemma_insert_pos_bound(s: Seq<LintResultView>, x: LintResultView)
    ensures
        insert_pos(s, x) <= s.len(),
{
    lemma_insert_pos(s, x);
}

proof fn lemma_insert_pos_unique(s: Seq<LintResultView>, x: LintResultView, p: nat)
    requires
        p <= s.len(),
        forall|k: int| 0 <= k < p ==> !result_le(x, #[trigger] s[k]),
        p < s.len() ==> result_le(x, s[p as int]),
    ensures
        insert_pos(s, x) == p,
    decreases s.len(),
{
    if s.len() > 0 && p > 0 {
        assert(!result_le(x, s[0]));
        assert forall|k: int| 0 <= k < p - 1 implies !result_le(x, #[trigger] s.drop_first()[k]) by {
            assert(s.drop_first()[k] == s[k + 1]);
        }
        lemma_insert_pos_unique(s.drop_first(), x, (p - 1) as nat);
    }
}

/// Inserting into a sorted sequence keeps it sorted.
pub proof fn lemma_insert_sorted(s: Seq<LintResultView>, x: LintResultView)
    requires
        is_sorted(s),
    ensures
        is_sorted(insert_sorted(s, x)),
        insert_sorted(s, x).len() == s.len() + 1,
{
    lemma_insert_pos(s, x);
    let p = insert_pos(s, x) as int;
    let t = insert_sorted(s, x);
    assert forall|i: int, j: int| 0 <= i < j < t.len() implies result_le(#[trigger] t[i], #[trigger] t[j]) by {
        if i < p && j < p {
            assert(t[i] == s[i] && t[j] == s[j]);
        } else if i < p && j == p {
            lemma_result_cmp(x, s[i]);
        } else if i < p {
            assert(t[i] == s[i] && t[j] == s[j - 1]);
            assert(result_le(s[i], s[j - 1]));
        } else if i == p {
            assert(t[j] == s[j - 1]);
            if j - 1 > p {
                assert(result_le(s[p], s[j - 1]));
                lemma_result_le_trans(x, s[p], s[j - 1]);
            }
        } else {
            assert(t[i] == s[i - 1] && t[j] == s[j - 1]);
            assert(result_le(s[i - 1], s[j - 1]));
        }
    }
}

/// The insertion sort gives a sorted sequence of the same length.
pub proof fn lemma_sort_results_sorted(s: Seq<LintResultView>)
    ensures
        is_sorted(sort_results(s)),
        sort_results(s).len() == s.len(),
    decreases s.len(),
{
    if s.len() > 0 {
        lemma_sort_results_sorted(s.drop_last());
        lemma_insert_sorted(sort_results(s.drop_last()), s.last());
    }
}

/// A sorted sequence is left as it is by the insertion sort.
pub proof fn lemma_sort_results_sorted_fixed(s: Seq<LintResultView>)
    requires
        is_sorted(s),
    ensures
        sort_results(s) == s,
    decreases s.len(),
{
    if s.len() > 0 {
        let u = s.drop_last();
        let x = s.last();
        assert(is_sorted(u));
        lemma_sort_results_sorted_fixed(u);
        lemma_insert_pos(u, x);
        let p = insert_pos(u, x) as int;
        assert forall|k: int| p <= k < u.len() implies #[trigger] u[k] == x by {
            assert(s[k] == u[k] && s[s.len() - 1] == x);
            assert(result_le(u[k], x));
            if k > p {
                assert(s[p] == u[p]);
                assert(result_le(u[p], u[k]));
                lemma_result_le_trans(x, u[p], u[k]);
            }
            lemma_result_cmp(x, u[k]);
        }
        assert forall|k: int| 0 <= k < s.len() implies #[trigger] u.insert(p, x)[k] == s[k] by {
            if k < p {
            } else if k == p {
                if p < u.len() {
                    assert(s[p] == u[p]);
                }
            } else {
                if k < u.len() {
                    assert(s[k] == u[k]);
                }
            }
        }
        assert(u.insert(p, x) =~= s);
    }
}

/// How many times `x` occurs in `s`.
pub open spec fn occurrences(s: Seq<LintResultView>, x: LintResultView) -> nat
    decreases s.len(),
{
    if s.len() == 0 {
        0
    } else {
        occurrences(s.drop_last(), x) + if s.last() == x { 1nat } else { 0nat }
    }
}

proof fn lemma_occurrences_insert(s: Seq<LintResultView>, p: int, y: LintResultView, x: LintResultView)
    requires
        0 <= p <= s.len(),
    ensures
        occurrences(s.insert(p, y), x) == occurrences(s, x) + if y == x { 1nat } else { 0nat },
    decreases s.len(),
{
    if p < s.len() {
        lemma_occurrences_insert(s.drop_last(), p, y, x);
        assert(s.insert(p, y).drop_last() =~= s.drop_last().insert(p, y));
    } else {
        assert(s.insert(p, y).drop_last() =~= s);
    }
}

/// The insertion sort gives a permutation of its input: every diagnostic
/// occurs as often as before.
pub proof fn lemma_sort_results_permutes(s: Seq<LintResultView>, x: LintResultView)
    ensures
        occurrences(sort_results(s), x) == occurrences(s, x),
    decreases s.len(),
{
    if s.len() > 0 {
        lemma_sort_results_permutes(s.drop_last(), x);
        lemma_sort_results_sorted(s.drop_last());
        lemma_insert_pos(sort_results(s.drop_last()), s.last());
        lemma_occurrences_insert(sort_results(s.drop_last()), insert_pos(sort_results(s.drop_last()), s.last()) as int, s.last(), x);
    }
}

/// Sorting a second time changes nothing.
pub proof fn lemma_sort_idempotent(s: Seq<LintResultView>)
    ensures
        sort_results(sort_results(s)) == sort_results(s),
{
    lemma_sort_results_sorted(s);
    lemma_sort_results_sorted_fixed(sort_results(s));
}

/// Three-way comparison of two texts.
pub fn compare_text(a: &str, b: &str) -> (r: i8)
    ensures
        r as int == text_cmp(a@, b@),
{
    let x = chars_of(a);
    let y = chars_of(b);
    let mut i: usize = 0;
    assert(x@.subrange(0, x@.len() as int) =~= x@);
    assert(y@.subrange(0, y@.len() as int) =~= y@);
    while i < x.len() && i < y.len()
        invariant
            x@ == a@,
            y@ == b@,
            i <= x@.len(),
            i <= y@.len(),
            text_cmp(a@, b@) == text_cmp(x@.subrange(i as int, x@.len() as int), y@.subrange(i as int, y@.len() as int)),
        decreases x@.len() - i,
    {
        let ghost xs = x@.subrange(i as int, x@.len() as int);
        let ghost ys = y@.subrange(i as int, y@.len() as int);
        if x[i] < y[i] {
            return -1;
        } else if x[i] > y[i] {
            return 1;
        }
        assert(xs.drop_first() =~= x@.subrange(i as int + 1, x@.len() as int));
        assert(ys.drop_first() =~= y@.subrange(i as int + 1, y@.len() as int));
        i += 1;
    }
    if x.len() == y.len() {
        0
    } else if i == x.len() {
        -1
    } else {
        1
    }
}

/// Whether two texts are the same.
pub fn same_text(a: &str, b: &str) -> (r: bool)
    ensures
        r == (a@ == b@),
{
    proof {
        lemma_text_cmp(a@, b@);
        if a@ == b@ {
            lemma_text_cmp(a@, a@);
        }
    }
    compare_text(a, b) == 0
}

pub fn compare_opt_text(a: &Option<String>, b: &Option<String>) -> (r: i8)
    ensures
        r as int == opt_text_cmp(opt_view(*a), opt_view(*b)),
{
    match (a, b) {
        (None, None) => 0,
        (None, Some(_)) => -1,
        (Some(_), None) => 1,
        (Some(x), Some(y)) => compare_text(x.as_str(), y.as_str()),
    }
}

fn compare_num(a: u64, b: u64) -> (r: i8)
    ensures
        r as int == num_cmp(a as int, b as int),
{
    if a < b { -1 } else if a > b { 1 } else { 0 }
}

/// Three-way comparison of two diagnostics.
pub fn compare_results(a: &LintResult, b: &LintResult) -> (r: i8)
    ensures
        r as int == result_cmp(a@, b@),
{
    let c = compare_opt_text(&a.filename, &b.filename);
    if c != 0 {
        return c;
    }
    let c = compare_num(a.line, b.line);
    if c != 0 {
        return c;
    }
    let c = compare_num(a.column, b.column);
    if c != 0 {
        return c;
    }
    let c = compare_opt_text(&a.code, &b.code);
    if c != 0 {
        return c;
    }
    let c = compare_opt_text(&a.message, &b.message);
    if c != 0 {
        return c;
    }
    compare_num(a.level.rank(), b.level.rank())
}

pub open spec fn views(v: Seq<LintResult>) -> Seq<LintResultView> {
    v.map_values(|r: LintResult| r@)
}

/// Sorts `v` by insertion.
pub fn sort_lint_results(v: &mut Vec<LintResult>)
    ensures
        views(final(v)@) == sort_results(views(old(v)@)),
{
    let ghost orig = views(v@);
    let n = v.len();
    let mut out: Vec<LintResult> = Vec::new();
    let mut k: usize = 0;
    while k < n
        invariant
            n == orig.len(),
            k <= n,
            views(v@) == orig.subrange(k as int, n as int),
            views(out@) == sort_results(orig.subrange(0, k as int)),
        decreases n - k,
    {
        let ghost rest = v@;
        assert(views(rest).len() == rest.len());
        assert(views(rest)[0] == rest[0]@);
        let x = v.remove(0);
        let ghost xv = x@;
        assert(xv == orig[k as int]);
        let mut p: usize = 0;
        while p < out.len() && compare_results(&x, &out[p]) > 0
            invariant
                xv == x@,
                p <= out@.len(),
                forall|j: int| 0 <= j < p ==> !result_le(xv, #[trigger] views(out@)[j]),
            decreases out@.len() - p,
        {
            assert(views(out@)[p as int] == out@[p as int]@);
            p += 1;
        }
        proof {
            lemma_insert_pos_unique(views(out@), xv, p as nat);
            assert(orig.subrange(0, k as int + 1).drop_last() =~= orig.subrange(0, k as int));
        }
        let ghost before = out@;
        out.insert(p, x);
        assert(views(out@) =~= views(before).insert(p as int, xv));
        k += 1;
        assert forall|j: int| 0 <= j < v@.len() implies #[trigger] views(v@)[j] == orig[k + j] by {
            assert(v@[j] == rest[j + 1]);
            assert(views(rest)[j + 1] == rest[j + 1]@);
        }
        assert(views(v@) =~= orig.subrange(k as int, n as int));
    }
    assert(orig.subrange(0, n as int) =~= orig);
    *v = out;
}

} // verus!
