//! Strings as sequences of characters.

use vstd::prelude::*;

verus! {

broadcast use vstd::string::group_string_axioms;

/// The character sequences of a sequence of strings.
pub open spec fn texts(items: Seq<String>) -> Seq<Seq<char>> {
    Seq::new(items.len(), |i: int| items[i]@)
}

/// The character sequence of an optional string.
pub open spec fn opt_text(item: Option<String>) -> Option<Seq<char>> {
    match item {
        Some(s) => Some(s@),
        None => None,
    }
}

/// The characters of `s`, in order.
pub fn chars_of(s: &str) -> (out: Vec<char>)
    ensures
        out@ == s@,
{
    let mut out: Vec<char> = Vec::new();
    for c in it: s.chars()
        invariant
            it.seq() == s@,
            out@ == s@.take(it.index()),
    {
        out.push(c);
    }
    assert(s@.take(s@.len() as int) == s@);
    out
}

/// A copy of an optional string.
pub fn copy_opt_text(item: &Option<String>) -> (out: Option<String>)
    ensures
        out == *item,
{
    match item {
        Some(text) => Some(text.clone()),
        None => None,
    }
}

/// A copy of a list of strings.
pub fn copy_texts(items: &Vec<String>) -> (out: Vec<String>)
    ensures
        out@ == items@,
{
    let mut out: Vec<String> = Vec::new();
    let mut i: usize = 0;
    while i < items.len()
        invariant
            i <= items.len(),
            out@ == items@.take(i as int),
        decreases items.len() - i,
    {
        out.push(items[i].clone());
        i += 1;
    }
    assert(items@.take(items@.len() as int) == items@);
    out
}

/// Whether `name` is one of `items`.
pub fn contains_text(items: &Vec<String>, name: &String) -> (r: bool)
    ensures
        r == texts(items@).contains(name@),
{
    let mut i: usize = 0;
    while i < items.len()
        invariant
            i <= items.len(),
            forall|j: int| 0 <= j < i ==> items[j]@ != name@,
        decreases items.len() - i,
    {
        if items[i] == *name {
            assert(texts(items@)[i as int] == name@);
            return true;
        }
        i += 1;
    }
    false
}

} // verus!
