//! Environment variables as lists of unique names with values.
use vstd::prelude::*;
use crate::pattern::{field_value, pairs_view};
use crate::order::same_text;

verus! {

/// The value that the last entry named `key` gives.
pub open spec fn last_value(pairs: Seq<(Seq<char>, Seq<char>)>, key: Seq<char>) -> Option<Seq<char>>
    decreases pairs.len(),
{
    if pairs.len() == 0 {
        None
    } else if pairs.last().0 == key {
        Some(pairs.last().1)
    } else {
        last_value(pairs.drop_last(), key)
    }
}

proof fn lemma_field_value_first(s: Seq<(Seq<char>, Seq<char>)>, key: Seq<char>, i: int)
    requires
        0 <= i <= s.len(),
        forall|j: int| 0 <= j < i ==> (#[trigger] s[j]).0 != key,
    ensures
        field_value(s, key) == field_value(s.subrange(i, s.len() as int), key),
    decreases i,
{
    if i > 0 {
        assert(s[0].0 != key);
        assert forall|j: int| 0 <= j < i - 1 implies (#[trigger] s.drop_first()[j]).0 != key by {
            assert(s.drop_first()[j] == s[j + 1]);
        }
        lemma_field_value_first(s.drop_first(), key, i - 1);
        assert(s.drop_first().subrange(i - 1, s.len() - 1) =~= s.subrange(i, s.len() as int));
    } else {
        assert(s.subrange(0, s.len() as int) =~= s);
    }
}

/// Sets variable `key` to `value`: replaces its entry, or adds one at the
/// end.
pub fn env_set(env: &mut Vec<(String, String)>, key: &str, value: &str)
    ensures
        forall|k: Seq<char>| #[trigger] field_value(pairs_view(final(env)@), k)
            == if k == key@ { Some(value@) } else { field_value(pairs_view(old(env)@), k) },
{
    let ghost s = pairs_view(env@);
    let mut i: usize = 0;
    while i < env.len() && !same_text(env[i].0.as_str(), key)
        invariant
            i <= env@.len(),
            s == pairs_view(env@),
            forall|j: int| 0 <= j < i ==> (#[trigger] s[j]).0 != key@,
        decreases env@.len() - i,
    {
        i += 1;
    }
    let entry = (key.to_owned(), value.to_owned());
    if i < env.len() {
        assert(s[i as int].0 == key@);
        env.set(i, entry);
        let ghost t = pairs_view(env@);
        assert forall|k: Seq<char>| #[trigger] field_value(t, k)
            == if k == key@ { Some(value@) } else { field_value(s, k) } by {
            if k == key@ {
                assert forall|j: int| 0 <= j < i implies (#[trigger] t[j]).0 != k by {
                    assert(t[j] == s[j]);
                }
                lemma_field_value_first(t, k, i as int);
            } else {
                assert(t.drop_first().len() == s.drop_first().len());
                lemma_field_value_set(s, t, i as int, k);
            }
        }
    } else {
        env.push(entry);
        let ghost t = pairs_view(env@);
        assert(t =~= s.push((key@, value@)));
        assert forall|k: Seq<char>| #[trigger] field_value(t, k)
            == if k == key@ { Some(value@) } else { field_value(s, k) } by {
            lemma_field_value_push(s, (key@, value@), k);
            if k == key@ {
                assert forall|j: int| 0 <= j < s.len() implies (#[trigger] s[j]).0 != k by {}
                lemma_field_value_first(s, k, s.len() as int);
                assert(s.subrange(s.len() as int, s.len() as int) =~= Seq::<(Seq<char>, Seq<char>)>::empty());
            }
        }
    }
}

proof fn lemma_field_value_set(s: Seq<(Seq<char>, Seq<char>)>, t: Seq<(Seq<char>, Seq<char>)>, i: int, k: Seq<char>)
    requires
        0 <= i < s.len(),
        t.len() == s.len(),
        forall|j: int| 0 <= j < s.len() && j != i ==> t[j] == s[j],
        t[i].0 != k,
        s[i].0 != k,
    ensures
        field_value(t, k) == field_value(s, k),
    decreases s.len(),
{
    if s.len() > 0 {
        if i > 0 {
            assert(t[0] == s[0]);
            assert forall|j: int| 0 <= j < s.len() - 1 && j != i - 1 implies t.drop_first()[j] == s.drop_first()[j] by {
                assert(t.drop_first()[j] == t[j + 1]);
            }
            lemma_field_value_set(s.drop_first(), t.drop_first(), i - 1, k);
        } else {
            assert(t.drop_first() =~= s.drop_first()) by {
                assert forall|j: int| 0 <= j < s.len() - 1 implies t.drop_first()[j] == s.drop_first()[j] by {
                    assert(t.drop_first()[j] == t[j + 1]);
                }
            }
        }
    }
}

proof fn lemma_field_value_push(s: Seq<(Seq<char>, Seq<char>)>, e: (Seq<char>, Seq<char>), k: Seq<char>)
    ensures
        field_value(s.push(e), k) == match field_value(s, k) {
            Some(v) => Some(v),
            None => if e.0 == k { Some(e.1) } else { None },
        },
    decreases s.len(),
{
    if s.len() > 0 {
        assert(s.push(e).drop_first() =~= s.drop_first().push(e));
        assert(s.push(e)[0] == s[0]);
        lemma_field_value_push(s.drop_first(), e, k);
    } else {
        assert(s.push(e).drop_first() =~= Seq::<(Seq<char>, Seq<char>)>::empty());
        assert(s.push(e)[0] == e);
        assert(field_value(s.push(e).drop_first(), k) is None);
    }
}

} // verus!
