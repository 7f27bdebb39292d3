use vstd::prelude::*;
use crate::lineeditor::{copy_chars, chars_eq, slice_chars};

verus! {

/// Whether `s` starts with `p`.
pub fn starts_with(s: &Vec<char>, p: &Vec<char>) -> (r: bool)
    ensures
        r == p@.is_prefix_of(s@),
{
    if p.len() > s.len() {
        return false;
    }
    let head = slice_chars(s, 0, p.len());
    chars_eq(&head, p)
}

/// `c` without the leading `p`, where it starts with `p`; else `c` whole.
pub open spec fn strip_prefix(c: Seq<char>, p: Seq<char>) -> Seq<char> {
    if p.is_prefix_of(c) {
        c.skip(p.len() as int)
    } else {
        c
    }
}

pub fn strip_prefix_exec(c: &Vec<char>, p: &Vec<char>) -> (r: Vec<char>)
    ensures
        r@ == strip_prefix(c@, p@),
{
    if starts_with(c, p) {
        let r = slice_chars(c, p.len(), c.len());
        assert(r@ =~= c@.skip(p@.len() as int));
        r
    } else {
        copy_chars(c)
    }
}

/// What a directory lookup for a word found.
pub enum DirListing {
    /// The word names a directory: the paths of its entries.
    Children(Vec<Vec<char>>),
    /// The word does not name a directory: the last component of the word and
    /// the `(name, path)` of each entry of its parent directory (none where
    /// that cannot be read).
    Siblings(Vec<char>, Vec<(Vec<char>, Vec<char>)>),
}

/// Paths of the entries whose name starts with `started`, in order.
pub open spec fn matching_paths(started: Seq<char>, es: Seq<(Seq<char>, Seq<char>)>) -> Seq<Seq<char>>
    decreases es.len(),
{
    if es.len() == 0 {
        Seq::empty()
    } else {
        let r = matching_paths(started, es.drop_last());
        if started.is_prefix_of(es.last().0) {
            r.push(es.last().1)
        } else {
            r
        }
    }
}

pub open spec fn texts_view(v: Seq<Vec<char>>) -> Seq<Seq<char>> {
    v.map_values(|e: Vec<char>| e@)
}

pub open spec fn pairs_view(v: Seq<(Vec<char>, Vec<char>)>) -> Seq<(Seq<char>, Seq<char>)> {
    v.map_values(|e: (Vec<char>, Vec<char>)| (e.0@, e.1@))
}

/// The completion candidates that a listing offers.
pub open spec fn candidates(l: DirListing) -> Seq<Seq<char>> {
    match l {
        DirListing::Children(ps) => texts_view(ps@),
        DirListing::Siblings(started, es) => matching_paths(started@, pairs_view(es@)),
    }
}

/// The completion candidates for a path, or none where there is none.
pub fn provide_path_autocomplete(listing: DirListing) -> (r: Option<Vec<Vec<char>>>)
    ensures
        candidates(listing).len() == 0 <==> r is None,
        r matches Some(v) ==> texts_view(v@) == candidates(listing),
{
    let ghost l = listing;
    let completions: Vec<Vec<char>> = match listing {
        DirListing::Children(ps) => ps,
        DirListing::Siblings(started, es) => {
            let ghost pv = pairs_view(es@);
            let mut out: Vec<Vec<char>> = Vec::new();
            let mut i: usize = 0;
            while i < es.len()
                invariant
                    i <= es@.len(),
                    pv == pairs_view(es@),
                    texts_view(out@) == matching_paths(started@, pv.take(i as int)),
                decreases es@.len() - i,
            {
                assert(pv.take(i + 1).drop_last() =~= pv.take(i as int));
                if starts_with(&es[i].0, &started) {
                    out.push(copy_chars(&es[i].1));
                }
                i += 1;
                assert(texts_view(out@) =~= matching_paths(started@, pv.take(i as int)));
            }
            assert(pv.take(i as int) =~= pv);
            out
        },
    };
    if completions.len() == 0 {
        None
    } else {
        Some(completions)
    }
}

} // verus!
