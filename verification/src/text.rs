//! Small verified helpers on strings, stated over their character sequences.

use vstd::prelude::*;

verus! {

/// The character sequences of a sequence of strings.
pub open spec fn views(items: Seq<String>) -> Seq<Seq<char>> {
    Seq::new(items.len(), |i: int| items[i]@)
}

/// `parts` written one after another with `sep` between neighbours; the
/// empty sequence for no parts.
pub open spec fn join_with(parts: Seq<Seq<char>>, sep: Seq<char>) -> Seq<char>
    decreases parts.len(),
{
    if parts.len() == 0 {
        Seq::empty()
    } else if parts.len() == 1 {
        parts[0]
    } else {
        join_with(parts.drop_last(), sep) + sep + parts.last()
    }
}

/// The items of `parts` from index `from` on; none where `from` lies
/// behind the last.
pub open spec fn from_index(parts: Seq<Seq<char>>, from: int) -> Seq<Seq<char>> {
    if 0 <= from <= parts.len() {
        parts.skip(from)
    } else {
        Seq::empty()
    }
}

/// Joins the strings of `parts` from index `from` on, with `sep` between
/// them.
pub fn join_from(parts: &Vec<String>, from: usize, sep: &str) -> (out: String)
    ensures
        out@ == join_with(from_index(views(parts@), from as int), sep@),
{
    let mut out = String::new();
    if from > parts.len() {
        return out;
    }
    let mut i: usize = from;
    let ghost all = views(parts@);
    while i < parts.len()
        invariant
            from <= i <= parts.len(),
            all == views(parts@),
            out@ == join_with(all.subrange(from as int, i as int), sep@),
        decreases parts.len() - i,
    {
        proof {
            let before = all.subrange(from as int, i as int);
            let after = all.subrange(from as int, i + 1);
            assert(after.drop_last() =~= before);
            assert(after.last() == parts@[i as int]@);
        }
        if i > from {
            out.append(sep);
        }
        out.append(parts[i].as_str());
        i = i + 1;
    }
    proof {
        assert(all.subrange(from as int, i as int) =~= all.skip(from as int));
    }
    out
}

/// A copy of `items`, string for string.
pub fn copy_strings(items: &Vec<String>) -> (out: Vec<String>)
    ensures
        views(out@) == views(items@),
{
    let mut out: Vec<String> = Vec::new();
    let mut i: usize = 0;
    while i < items.len()
        invariant
            i <= items.len(),
            out.len() == i,
            forall|j: int| 0 <= j < i ==> out@[j]@ == items@[j]@,
        decreases items.len() - i,
    {
        out.push(items[i].clone());
        i = i + 1;
    }
    proof {
        assert(views(out@) =~= views(items@));
    }
    out
}

/// Whether two strings hold the same text.
pub fn same_text(a: &str, b: &str) -> (out: bool)
    ensures
        out == (a@ == b@),
{
    let left = String::from_str(a);
    let right = String::from_str(b);
    left == right
}

} // verus!
