//! The list of recently visited paths.

use vstd::prelude::*;
use crate::text::same_text;

verus! {

/// How many recent paths are remembered.
pub const RECENT_LIMIT: usize = 10;

/// The texts of a sequence of strings.
pub open spec fn texts(v: Seq<String>) -> Seq<Seq<char>> {
    Seq::new(v.len(), |i: int| v[i]@)
}

pub open spec fn differs_from(path: Seq<char>) -> spec_fn(Seq<char>) -> bool {
    |p: Seq<char>| p != path
}

/// The recent paths after a visit to `path`: `path` in front, then
/// the earlier ones without it, cut off at the limit.
pub open spec fn recent_after(recent: Seq<Seq<char>>, path: Seq<char>) -> Seq<Seq<char>> {
    let all = seq![path] + recent.filter(differs_from(path));
    if all.len() > RECENT_LIMIT {
        all.subrange(0, RECENT_LIMIT as int)
    } else {
        all
    }
}

/// Puts `path` at the front of the recent paths, removes it from
/// where it stood before, and keeps no more than the limit.
pub fn add_recent_path(recent: &mut Vec<String>, path: String)
    ensures
        texts(final(recent)@) == recent_after(texts(old(recent)@), path@),
{
    let ghost before = texts(recent@);
    let mut old_paths: Vec<String> = Vec::new();
    std::mem::swap(recent, &mut old_paths);
    let n: usize = old_paths.len();
    recent.push(path.clone());
    assert(texts(recent@) =~= seq![path@] + before.subrange(0, 0).filter(differs_from(path@))) by {
        reveal_with_fuel(Seq::filter, 1);
    }
    let mut i: usize = 0;
    while i < n
        invariant
            n == old_paths@.len(),
            i <= n,
            before == texts(old_paths@),
            texts(recent@) == seq![path@] + before.subrange(0, i as int).filter(
                differs_from(path@),
            ),
        decreases n - i,
    {
        let ghost so_far = texts(recent@);
        proof {
            reveal_with_fuel(Seq::filter, 1);
            let upto = before.subrange(0, i + 1);
            assert(upto.drop_last() =~= before.subrange(0, i as int));
            assert(upto.last() == old_paths@[i as int]@);
        }
        if !same_text(old_paths[i].as_str(), path.as_str()) {
            recent.push(old_paths[i].clone());
            assert(texts(recent@) =~= so_far.push(old_paths@[i as int]@));
        }
        i += 1;
        assert(texts(recent@) =~= seq![path@] + before.subrange(0, i as int).filter(
            differs_from(path@),
        ));
    }
    assert(before.subrange(0, n as int) =~= before);
    let ghost all = texts(recent@);
    recent.truncate(RECENT_LIMIT);
    assert(texts(recent@) =~= recent_after(before, path@));
}

} // verus!
