//! The diff between a file and its formatted copy.
use vstd::prelude::*;
use crate::command::strings_view;
use crate::order::same_text;
use crate::text::append_str;

verus! {

/// What `difflib::unified_diff` gives for two sequences of lines, the two
/// file labels, their dates and the number of context lines.
pub uninterp spec fn unified_diff_of(
    old: Seq<Seq<char>>,
    new: Seq<Seq<char>>,
    from: Seq<char>,
    to: Seq<char>,
    from_date: Seq<char>,
    to_date: Seq<char>,
    context: nat,
) -> Seq<Seq<char>>;

/// Relies on difflib::unified_diff: the lines of the unified diff. The
/// context is bounded, since difflib adds it to indices and doubles it.
#[verifier::external_body]
fn unified_diff(old: &Vec<String>, new: &Vec<String>, from: &str, to: &str, from_date: &str, to_date: &str, context: usize) -> (r: Vec<String>)
    requires
        context <= 1000,
    ensures
        strings_view(r@) == unified_diff_of(strings_view(old@), strings_view(new@), from@, to@, from_date@, to_date@, context as nat),
{
    difflib::unified_diff(old, new, from, to, from_date, to_date, context)
}

fn same_lines(a: &Vec<String>, b: &Vec<String>) -> (r: bool)
    ensures
        r == (strings_view(a@) == strings_view(b@)),
{
    if a.len() != b.len() {
        assert(strings_view(a@).len() != strings_view(b@).len());
        return false;
    }
    let mut i: usize = 0;
    while i < a.len()
        invariant
            i <= a@.len(),
            a@.len() == b@.len(),
            forall|j: int| 0 <= j < i ==> a@[j]@ == b@[j]@,
        decreases a@.len() - i,
    {
        if !same_text(a[i].as_str(), b[i].as_str()) {
            assert(strings_view(a@)[i as int] != strings_view(b@)[i as int]);
            return false;
        }
        i += 1;
    }
    assert(strings_view(a@) =~= strings_view(b@));
    true
}

/// The unified diff, with five lines of context, between the lines of a file
/// and of its formatted copy, labelled `a/<path>` and `b/<path>`; nothing
/// where the two are the same.
pub fn file_diff(old: &Vec<String>, new: &Vec<String>, path: &str) -> (r: Option<Vec<String>>)
    ensures
        r is None <==> strings_view(old@) == strings_view(new@),
        r is Some ==> strings_view(r->0@) == unified_diff_of(strings_view(old@), strings_view(new@),
            "a/"@ + path@, "b/"@ + path@, Seq::empty(), Seq::empty(), 5),
{
    if same_lines(old, new) {
        return None;
    }
    let mut from = "a/".to_owned();
    append_str(&mut from, path);
    let mut to = "b/".to_owned();
    append_str(&mut to, path);
    let empty = String::new();
    Some(unified_diff(old, new, from.as_str(), to.as_str(), empty.as_str(), empty.as_str(), 5))
}

} // verus!
