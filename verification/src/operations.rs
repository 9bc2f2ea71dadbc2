//! Where single-shot operations put things, and how they remove
//! them.

use vstd::prelude::*;
use crate::paths::{join, joined, parent, parent_of};

verus! {

/// Why an operation cannot be planned.
#[derive(Clone, Copy, Debug, PartialEq, Eq, Structural)]
pub enum PlanError {
    NoParent,
}

/// How an entry is removed.
#[derive(Clone, Copy, Debug, PartialEq, Eq, Structural)]
pub enum DeletionMethod {
    MoveToTrash,
    RemoveTree,
    RemoveFile,
}

/// Where an entry goes when it is renamed: beside where it is, under
/// its new name; nowhere where the path has no parent.
pub open spec fn renamed(old_path: Seq<char>, new_name: Seq<char>) -> Option<Seq<char>> {
    match parent_of(old_path) {
        Some(dir) => Some(joined(dir, new_name)),
        None => None,
    }
}

/// The path that `old_path` has once it is renamed to `new_name`.
pub fn rename_target(old_path: &str, new_name: &str) -> (r: Result<String, PlanError>)
    ensures
        r.is_ok() == renamed(old_path@, new_name@).is_some(),
        r.is_ok() ==> r.unwrap()@ == renamed(old_path@, new_name@).unwrap(),
        r.is_err() ==> r == Err::<String, PlanError>(PlanError::NoParent),
{
    match parent(old_path) {
        Some(dir) => Ok(join(dir.as_str(), new_name)),
        None => Err(PlanError::NoParent),
    }
}

/// The path of a new file or folder called `name` in `parent`.
pub fn creation_target(parent: &str, name: &str) -> (r: String)
    ensures
        r@ == joined(parent@, name@),
{
    join(parent, name)
}

/// How an entry is to be removed: to the trash where that is asked
/// for, else for good, a directory with all that is in it.
pub open spec fn method_for(use_trash: bool, is_dir: bool) -> DeletionMethod {
    if use_trash {
        DeletionMethod::MoveToTrash
    } else if is_dir {
        DeletionMethod::RemoveTree
    } else {
        DeletionMethod::RemoveFile
    }
}

/// Chooses how an entry is removed.
pub fn deletion_method(use_trash: bool, is_dir: bool) -> (m: DeletionMethod)
    ensures
        m == method_for(use_trash, is_dir),
{
    if use_trash {
        DeletionMethod::MoveToTrash
    } else if is_dir {
        DeletionMethod::RemoveTree
    } else {
        DeletionMethod::RemoveFile
    }
}

} // verus!
