//! Thumbnail bookkeeping: where thumbnails are kept, how large they
//! are, which files get one and under which name it is cached.

use vstd::prelude::*;
use vstd::string::*;
use crate::format::{decimal, numeral, numeral_text};
use crate::text::same_text;

verus! {

/// The edge length of a thumbnail unless another is asked for.
pub const DEFAULT_THUMBNAIL_SIZE: u32 = 128;

pub struct ThumbnailGenerator {
    cache_dir: String,
    thumbnail_size: u32,
}

/// Whether a lowercase extension marks an image that a thumbnail can
/// be made of.
pub open spec fn is_thumbnail_source(e: Seq<char>) -> bool {
    e == "jpg"@ || e == "jpeg"@ || e == "png"@ || e == "gif"@ || e == "bmp"@ || e == "webp"@ || e
        == "tiff"@
}

/// The file name under which the thumbnail of a file is cached: the
/// hash of its path in hexadecimal, an underscore, the second of its
/// last modification in decimal, and the extension `.png`.
pub open spec fn cache_key_of(path_hash: u64, modified_secs: u64) -> Seq<char> {
    numeral(path_hash as nat, 16) + "_"@ + decimal(modified_secs as nat) + ".png"@
}

impl ThumbnailGenerator {
    /// The directory in which thumbnails are kept.
    pub closed spec fn directory(&self) -> Seq<char> {
        self.cache_dir@
    }

    /// The edge length of the thumbnails.
    pub closed spec fn size(&self) -> u32 {
        self.thumbnail_size
    }

    /// A generator that keeps its thumbnails in `cache_dir`.
    pub fn in_directory(cache_dir: String) -> (g: ThumbnailGenerator)
        ensures
            g.directory() == cache_dir@,
            g.size() == DEFAULT_THUMBNAIL_SIZE,
    {
        ThumbnailGenerator { cache_dir, thumbnail_size: DEFAULT_THUMBNAIL_SIZE }
    }

    /// The same generator with another edge length.
    pub fn with_size(self, size: u32) -> (g: ThumbnailGenerator)
        ensures
            g.size() == size,
            g.directory() == self.directory(),
    {
        let mut g = self;
        g.thumbnail_size = size;
        g
    }

    pub fn get_size(&self) -> (s: u32)
        ensures
            s == self.size(),
    {
        self.thumbnail_size
    }

    pub fn get_cache_dir(&self) -> (d: &String)
        ensures
            d@ == self.directory(),
    {
        &self.cache_dir
    }

    /// Whether a thumbnail can be made of a file with the lowercase
    /// extension `e`.
    pub fn can_generate(e: &str) -> (r: bool)
        ensures
            r == is_thumbnail_source(e@),
    {
        same_text(e, "jpg") || same_text(e, "jpeg") || same_text(e, "png") || same_text(e, "gif")
            || same_text(e, "bmp") || same_text(e, "webp") || same_text(e, "tiff")
    }

    /// The file name under which a thumbnail is cached.
    pub fn cache_key(path_hash: u64, modified_secs: u64) -> (k: String)
        ensures
            k@ == cache_key_of(path_hash, modified_secs),
    {
        let mut k = numeral_text(path_hash, 16);
        k.append("_");
        k.append(numeral_text(modified_secs, 10).as_str());
        k.append(".png");
        k
    }
}

} // verus!
