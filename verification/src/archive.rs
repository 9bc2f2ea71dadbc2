//! Which unpacker an archive calls for.

use vstd::prelude::*;
use crate::file_item::lower_extension;
use crate::paths::extension;
use crate::text::{same_text, to_lower};

verus! {

/// The archive formats that can be unpacked.
#[derive(Clone, Copy, Debug, PartialEq, Eq, Structural)]
pub enum ArchiveFormat {
    Zip,
    Tar,
}

/// The format that a path's extension stands for, whatever its
/// case: `zip` or `tar`, and none for anything else.
pub open spec fn format_of(path: Seq<char>) -> Option<ArchiveFormat> {
    match lower_extension(path) {
        Some(e) => if e == "zip"@ {
            Some(ArchiveFormat::Zip)
        } else if e == "tar"@ {
            Some(ArchiveFormat::Tar)
        } else {
            None
        },
        None => None,
    }
}

/// The format in which the archive at `path` is to be unpacked, if
/// it is one that can be.
pub fn archive_format(path: &str) -> (f: Option<ArchiveFormat>)
    ensures
        f == format_of(path@),
{
    match extension(path) {
        Some(e) => {
            let low = to_lower(e.as_str());
            if same_text(low.as_str(), "zip") {
                Some(ArchiveFormat::Zip)
            } else if same_text(low.as_str(), "tar") {
                Some(ArchiveFormat::Tar)
            } else {
                None
            }
        },
        None => None,
    }
}

} // verus!
