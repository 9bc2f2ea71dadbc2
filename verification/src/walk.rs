//! What is kept of a reading of the disk in which single entries
//! could not be examined.

use vstd::prelude::*;
use crate::file_manager::IoFault;

verus! {

/// The entries of a reading that could be examined, in order.
pub open spec fn readable<T>(raw: Seq<Result<T, IoFault>>) -> Seq<T>
    decreases raw.len(),
{
    if raw.len() == 0 {
        Seq::empty()
    } else {
        match raw.last() {
            Ok(entry) => readable(raw.drop_last()).push(entry),
            Err(_) => readable(raw.drop_last()),
        }
    }
}

/// What a walk of a tree comes to: it fails as a whole only where
/// its first step, the root, could not be examined; whatever fails
/// later is left out.
pub open spec fn walk_result<T>(walk: Seq<Result<T, IoFault>>) -> Result<Seq<T>, IoFault> {
    if walk.len() == 0 {
        Ok(readable(walk))
    } else {
        match walk[0] {
            Err(f) => Err(f),
            Ok(_) => Ok(readable(walk)),
        }
    }
}

/// Leaves out the entries of a reading that could not be examined
/// and keeps the others in order. One entry that fails does not fail
/// the reading.
pub fn keep_readable<T>(raw: Vec<Result<T, IoFault>>) -> (kept: Vec<T>)
    ensures
        kept@ == readable(raw@),
{
    let ghost all = raw@;
    let mut src = raw;
    let mut newest_first: Vec<T> = Vec::new();
    let mut kept: Vec<T> = Vec::new();
    while src.len() > 0
        invariant
            src@.len() <= all.len(),
            readable(all) == readable(src@) + newest_first@.reverse(),
        decreases src.len(),
    {
        let ghost before = src@;
        let ghost done = newest_first@;
        let step = src.pop().unwrap();
        assert(src@ =~= before.drop_last());
        match step {
            Ok(entry) => {
                newest_first.push(entry);
                assert(newest_first@.reverse() =~= seq![entry] + done.reverse());
                assert(readable(before) + done.reverse() =~= readable(src@)
                    + newest_first@.reverse());
            },
            Err(_) => {},
        }
    }
    assert(readable(src@) =~= Seq::<T>::empty());
    while newest_first.len() > 0
        invariant
            readable(all) == kept@ + newest_first@.reverse(),
        decreases newest_first.len(),
    {
        let ghost before = newest_first@;
        let ghost done = kept@;
        let entry = newest_first.pop().unwrap();
        kept.push(entry);
        assert(before.reverse() =~= seq![entry] + newest_first@.reverse());
        assert(done + before.reverse() =~= kept@ + newest_first@.reverse());
    }
    assert(kept@ + newest_first@.reverse() =~= kept@);
    kept
}

/// Settles a walk of a tree: the fault of the root fails it, any
/// other is passed over.
pub fn settle_walk<T>(walk: Vec<Result<T, IoFault>>) -> (r: Result<Vec<T>, IoFault>)
    ensures
        match r {
            Ok(kept) => walk_result(walk@) == Ok::<Seq<T>, IoFault>(kept@),
            Err(f) => walk_result(walk@) == Err::<Seq<T>, IoFault>(f),
        },
{
    if walk.len() > 0 {
        match &walk[0] {
            Err(f) => {
                return Err(*f);
            },
            Ok(_) => {},
        }
    }
    Ok(keep_readable(walk))
}

} // verus!
