//! Path vocabulary. Paths travel through the crate as plain strings.
//! Splitting them into components is left to `std::path`, whose
//! answers are referred to by name; they follow the path syntax of
//! the platform that the crate is built for. What a file name holds
//! beside its extension is worked out here.

use vstd::prelude::*;
use vstd::string::*;
use crate::text::chars_of;

verus! {

/// The final component of a path, as `Path::file_name` gives it.
pub uninterp spec fn file_name_of(path: Seq<char>) -> Option<Seq<char>>;

/// The position of the last dot in a name, or -1 where it has none.
pub open spec fn last_dot(name: Seq<char>) -> int
    decreases name.len(),
{
    if name.len() == 0 {
        -1
    } else if name.last() == '.' {
        name.len() - 1
    } else {
        last_dot(name.drop_last())
    }
}

/// The extension of a file name: what stands behind its last dot,
/// unless the name has no dot or only one in front.
pub open spec fn extension_in(name: Seq<char>) -> Option<Seq<char>> {
    if last_dot(name) <= 0 {
        None
    } else {
        Some(name.subrange(last_dot(name) + 1, name.len() as int))
    }
}

/// The stem of a file name: what stands before its last dot, or the
/// whole name where it has no dot or only one in front.
pub open spec fn stem_in(name: Seq<char>) -> Seq<char> {
    if last_dot(name) <= 0 {
        name
    } else {
        name.subrange(0, last_dot(name))
    }
}

/// The extension of a path: that of its final component.
pub open spec fn extension_of(path: Seq<char>) -> Option<Seq<char>> {
    match file_name_of(path) {
        Some(name) => extension_in(name),
        None => None,
    }
}

/// The stem of a path: that of its final component.
pub open spec fn file_stem_of(path: Seq<char>) -> Option<Seq<char>> {
    match file_name_of(path) {
        Some(name) => Some(stem_in(name)),
        None => None,
    }
}

/// The path without its final component, as `Path::parent` gives it.
pub uninterp spec fn parent_of(path: Seq<char>) -> Option<Seq<char>>;

/// A path extended by one more component, as `Path::join` gives it.
pub uninterp spec fn joined(base: Seq<char>, name: Seq<char>) -> Seq<char>;

/// Calls `Path::file_name` on the path spelled by `path`. Nothing is
/// claimed about how the component is found; the answer is
/// [`file_name_of`].
#[verifier::external_body]
pub(crate) fn file_name(path: &str) -> (r: Option<String>)
    ensures
        r.is_some() == file_name_of(path@).is_some(),
        r.is_some() ==> r.unwrap()@ == file_name_of(path@).unwrap(),
{
    std::path::Path::new(path).file_name().map(|n| n.to_string_lossy().to_string())
}

/// Finds the last dot of a name.
fn find_last_dot(name: &str) -> (r: Option<usize>)
    ensures
        r.is_none() == (last_dot(name@) < 0),
        r.is_some() ==> r.unwrap() == last_dot(name@),
        r.is_some() ==> r.unwrap() < name@.len(),
{
    let chars = chars_of(name);
    let mut i: usize = chars.len();
    assert(chars@.subrange(0, i as int) =~= name@);
    while i > 0
        invariant
            chars@ == name@,
            i <= chars@.len(),
            last_dot(name@) == last_dot(name@.subrange(0, i as int)),
        decreases i,
    {
        let ghost upto = name@.subrange(0, i as int);
        assert(upto.last() == chars@[i - 1]);
        assert(upto.drop_last() =~= name@.subrange(0, i - 1));
        if chars[i - 1] == '.' {
            return Some(i - 1);
        }
        i -= 1;
    }
    None
}

/// The extension of a file name.
pub fn extension_in_name(name: &str) -> (r: Option<String>)
    ensures
        r.is_some() == extension_in(name@).is_some(),
        r.is_some() ==> r.unwrap()@ == extension_in(name@).unwrap(),
{
    match find_last_dot(name) {
        None => None,
        Some(dot) => {
            if dot == 0 {
                None
            } else {
                let n: usize = name.unicode_len();
                Some(name.substring_char(dot + 1, n).to_owned())
            }
        },
    }
}

/// The stem of a file name.
pub fn stem_in_name(name: &str) -> (r: String)
    ensures
        r@ == stem_in(name@),
{
    match find_last_dot(name) {
        None => name.to_owned(),
        Some(dot) => {
            if dot == 0 {
                name.to_owned()
            } else {
                name.substring_char(0, dot).to_owned()
            }
        },
    }
}

/// The extension of the final component of `path`.
pub fn extension(path: &str) -> (r: Option<String>)
    ensures
        r.is_some() == extension_of(path@).is_some(),
        r.is_some() ==> r.unwrap()@ == extension_of(path@).unwrap(),
{
    match file_name(path) {
        None => None,
        Some(name) => extension_in_name(name.as_str()),
    }
}

/// The final component of `path` without its extension.
pub fn file_stem(path: &str) -> (r: Option<String>)
    ensures
        r.is_some() == file_stem_of(path@).is_some(),
        r.is_some() ==> r.unwrap()@ == file_stem_of(path@).unwrap(),
{
    match file_name(path) {
        None => None,
        Some(name) => Some(stem_in_name(name.as_str())),
    }
}

/// Calls `Path::parent` on the path spelled by `path`. The answer is
/// [`parent_of`].
#[verifier::external_body]
pub(crate) fn parent(path: &str) -> (r: Option<String>)
    ensures
        r.is_some() == parent_of(path@).is_some(),
        r.is_some() ==> r.unwrap()@ == parent_of(path@).unwrap(),
{
    std::path::Path::new(path).parent().map(|n| n.to_string_lossy().to_string())
}

/// Calls `Path::join` to extend `base` by `name`. The answer is
/// [`joined`].
#[verifier::external_body]
pub(crate) fn join(base: &str, name: &str) -> (r: String)
    ensures
        r@ == joined(base@, name@),
{
    std::path::Path::new(base).join(name).to_string_lossy().to_string()
}

} // verus!
