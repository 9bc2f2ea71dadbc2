//! The snapshot of one filesystem entry, and the ordering policy that
//! arranges a directory listing for display.

use vstd::prelude::*;
use crate::text::{lowercase, same_text, starts_with_char, to_lower};
use crate::paths::{extension, extension_of, file_name, file_name_of};

verus! {

/// What kind of filesystem object an entry is.
#[derive(Clone, Copy, Debug, PartialEq, Eq, Structural)]
pub enum FileType {
    Directory,
    RegularFile,
    SymbolicLink,
    Other,
}

/// An instant, counted from the Unix epoch.
#[derive(Clone, Copy, Debug, PartialEq, Eq, Structural)]
pub struct Timestamp {
    pub secs: i64,
    pub nanos: u32,
}

impl FileType {
    /// Whether this kind ranks before `other`: a directory ranks
    /// before every other kind, and all other kinds rank alike.
    pub open spec fn spec_ranks_before(self, other: FileType) -> bool {
        self == FileType::Directory && other != FileType::Directory
    }

    /// Whether this kind ranks before `other`.
    pub fn ranks_before(&self, other: &FileType) -> (r: bool)
        ensures
            r == self.spec_ranks_before(*other),
    {
        match (self, other) {
            (FileType::Directory, FileType::Directory) => false,
            (FileType::Directory, _) => true,
            _ => false,
        }
    }
}

impl Timestamp {
    /// Whether this instant lies strictly before `other`.
    pub open spec fn spec_is_before(self, other: Timestamp) -> bool {
        self.secs < other.secs || (self.secs == other.secs && self.nanos < other.nanos)
    }

    /// Whether this instant lies strictly before `other`.
    pub fn is_before(&self, other: &Timestamp) -> (r: bool)
        ensures
            r == self.spec_is_before(*other),
    {
        self.secs < other.secs || (self.secs == other.secs && self.nanos < other.nanos)
    }
}

/// The broad class of content that an extension stands for.
#[derive(Clone, Copy, Debug, PartialEq, Eq, Structural)]
pub enum Category {
    Image,
    Video,
    Audio,
    Document,
    Archive,
    Unclassified,
}

/// The field by which a listing is ordered.
#[derive(Clone, Copy, Debug, PartialEq, Eq, Structural)]
pub enum SortBy {
    Name,
    Size,
    Modified,
    Type,
    Created,
}

/// The direction in which a listing is ordered.
#[derive(Clone, Copy, Debug, PartialEq, Eq, Structural)]
pub enum SortOrder {
    Ascending,
    Descending,
}

/// What a `stat` of one entry reports, as plain values.
#[derive(Clone, Copy, Debug)]
pub struct EntryMetadata {
    pub is_dir: bool,
    pub is_file: bool,
    pub is_symlink: bool,
    pub size: u64,
    pub modified: Timestamp,
    pub created: Option<Timestamp>,
    pub accessed: Option<Timestamp>,
    pub readonly: bool,
    /// The hidden attribute of the entry, on systems that keep one.
    pub hidden_attribute: Option<bool>,
}

/// One entry of a directory as it was when the directory was read.
#[derive(Clone, Debug)]
pub struct FileItem {
    pub name: String,
    pub path: String,
    pub file_type: FileType,
    pub size: u64,
    pub modified: Timestamp,
    pub created: Option<Timestamp>,
    pub accessed: Option<Timestamp>,
    pub is_hidden: bool,
    pub is_readonly: bool,
    pub extension: Option<String>,
    pub mime_type: Option<String>,
    pub icon_path: Option<String>,
    pub thumbnail_path: Option<String>,
    pub is_selected: bool,
}

/// The media type that `mime_guess` associates with an extension,
/// falling back to `application/octet-stream`.
pub uninterp spec fn guessed_mime(ext: Seq<char>) -> Seq<char>;

/// Calls `mime_guess::from_ext` and takes the first guess, or the
/// octet-stream type when the extension is unknown. The table is not
/// restated: the answer is [`guessed_mime`].
#[verifier::external_body]
fn guess_mime(ext: &str) -> (r: String)
    ensures
        r@ == guessed_mime(ext@),
{
    mime_guess::from_ext(ext).first_or_octet_stream().to_string()
}

/// The kind that a `stat` result stands for: a directory wins over a
/// regular file, which wins over a symbolic link.
pub open spec fn kind_of(meta: EntryMetadata) -> FileType {
    if meta.is_dir {
        FileType::Directory
    } else if meta.is_file {
        FileType::RegularFile
    } else if meta.is_symlink {
        FileType::SymbolicLink
    } else {
        FileType::Other
    }
}

/// The name under which a path is listed: its final component, or
/// the empty text where it has none.
pub open spec fn display_name(path: Seq<char>) -> Seq<char> {
    match file_name_of(path) {
        Some(n) => n,
        None => Seq::empty(),
    }
}

/// Whether a path is hidden by the dotfile convention.
pub open spec fn hidden_path(path: Seq<char>) -> bool {
    match file_name_of(path) {
        Some(n) => n.len() > 0 && n[0] == '.',
        None => false,
    }
}

/// Whether an entry is hidden: by its hidden attribute where the
/// system keeps one, else by the dotfile convention.
pub open spec fn hidden_entry(path: Seq<char>, meta: EntryMetadata) -> bool {
    match meta.hidden_attribute {
        Some(hidden) => hidden,
        None => hidden_path(path),
    }
}

/// The lowercase extension of a path, if it has one.
pub open spec fn lower_extension(path: Seq<char>) -> Option<Seq<char>> {
    match extension_of(path) {
        Some(e) => Some(lowercase(e)),
        None => None,
    }
}

/// The content class of a lowercase extension.
pub open spec fn category_of_extension(e: Seq<char>) -> Category {
    if e == "jpg"@ || e == "jpeg"@ || e == "png"@ || e == "gif"@ || e == "bmp"@ || e == "webp"@
        || e == "tiff"@ || e == "svg"@ {
        Category::Image
    } else if e == "mp4"@ || e == "avi"@ || e == "mkv"@ || e == "mov"@ || e == "wmv"@ || e
        == "flv"@ || e == "webm"@ || e == "m4v"@ {
        Category::Video
    } else if e == "mp3"@ || e == "wav"@ || e == "flac"@ || e == "aac"@ || e == "ogg"@ || e
        == "wma"@ || e == "m4a"@ {
        Category::Audio
    } else if e == "pdf"@ || e == "doc"@ || e == "docx"@ || e == "xls"@ || e == "xlsx"@ || e
        == "ppt"@ || e == "pptx"@ || e == "txt"@ || e == "rtf"@ || e == "odt"@ || e == "ods"@
        || e == "odp"@ {
        Category::Document
    } else if e == "zip"@ || e == "rar"@ || e == "7z"@ || e == "tar"@ || e == "gz"@ || e
        == "bz2"@ || e == "xz"@ || e == "lzma"@ {
        Category::Archive
    } else {
        Category::Unclassified
    }
}

/// Classifies an extension, which is compared as it stands.
pub fn classify_extension(e: &str) -> (c: Category)
    ensures
        c == category_of_extension(e@),
{
    if same_text(e, "jpg") || same_text(e, "jpeg") || same_text(e, "png") || same_text(e, "gif")
        || same_text(e, "bmp") || same_text(e, "webp") || same_text(e, "tiff") || same_text(
        e,
        "svg",
    ) {
        Category::Image
    } else if same_text(e, "mp4") || same_text(e, "avi") || same_text(e, "mkv") || same_text(
        e,
        "mov",
    ) || same_text(e, "wmv") || same_text(e, "flv") || same_text(e, "webm") || same_text(
        e,
        "m4v",
    ) {
        Category::Video
    } else if same_text(e, "mp3") || same_text(e, "wav") || same_text(e, "flac") || same_text(
        e,
        "aac",
    ) || same_text(e, "ogg") || same_text(e, "wma") || same_text(e, "m4a") {
        Category::Audio
    } else if same_text(e, "pdf") || same_text(e, "doc") || same_text(e, "docx") || same_text(
        e,
        "xls",
    ) || same_text(e, "xlsx") || same_text(e, "ppt") || same_text(e, "pptx") || same_text(
        e,
        "txt",
    ) || same_text(e, "rtf") || same_text(e, "odt") || same_text(e, "ods") || same_text(
        e,
        "odp",
    ) {
        Category::Document
    } else if same_text(e, "zip") || same_text(e, "rar") || same_text(e, "7z") || same_text(
        e,
        "tar",
    ) || same_text(e, "gz") || same_text(e, "bz2") || same_text(e, "xz") || same_text(
        e,
        "lzma",
    ) {
        Category::Archive
    } else {
        Category::Unclassified
    }
}

impl FileItem {
    /// The content class of this entry: that of its extension, or
    /// unclassified where it has none.
    pub open spec fn spec_category(&self) -> Category {
        match self.extension {
            Some(e) => category_of_extension(e@),
            None => Category::Unclassified,
        }
    }

    /// Builds the snapshot of the entry at `path` from what a `stat`
    /// of it reported.
    pub fn from_path(path: &str, meta: EntryMetadata) -> (item: FileItem)
        ensures
            item.name@ == display_name(path@),
            item.path@ == path@,
            item.file_type == kind_of(meta),
            item.size == meta.size,
            item.modified == meta.modified,
            item.created == meta.created,
            item.accessed == meta.accessed,
            item.is_hidden == hidden_entry(path@, meta),
            item.is_readonly == meta.readonly,
            item.extension.is_some() == lower_extension(path@).is_some(),
            item.extension.is_some() ==> item.extension.unwrap()@ == lower_extension(
                path@,
            ).unwrap(),
            item.mime_type.is_some() == item.extension.is_some(),
            item.mime_type.is_some() ==> item.mime_type.unwrap()@ == guessed_mime(
                lower_extension(path@).unwrap(),
            ),
            item.icon_path.is_none(),
            item.thumbnail_path.is_none(),
            !item.is_selected,
    {
        let last = file_name(path);
        let (name, dotfile) = match last {
            Some(n) => {
                let h = starts_with_char(n.as_str(), '.');
                (n, h)
            },
            None => (String::new(), false),
        };
        let is_hidden = match meta.hidden_attribute {
            Some(hidden) => hidden,
            None => dotfile,
        };
        let file_type = if meta.is_dir {
            FileType::Directory
        } else if meta.is_file {
            FileType::RegularFile
        } else if meta.is_symlink {
            FileType::SymbolicLink
        } else {
            FileType::Other
        };
        let ext = match extension(path) {
            Some(e) => Some(to_lower(e.as_str())),
            None => None,
        };
        let mime_type = match &ext {
            Some(e) => Some(guess_mime(e.as_str())),
            None => None,
        };
        FileItem {
            name,
            path: path.to_owned(),
            file_type,
            size: meta.size,
            modified: meta.modified,
            created: meta.created,
            accessed: meta.accessed,
            is_hidden,
            is_readonly: meta.readonly,
            extension: ext,
            mime_type,
            icon_path: None,
            thumbnail_path: None,
            is_selected: false,
        }
    }

    /// The content class of this entry.
    pub fn category(&self) -> (c: Category)
        ensures
            c == self.spec_category(),
    {
        match &self.extension {
            Some(e) => classify_extension(e.as_str()),
            None => Category::Unclassified,
        }
    }

    pub fn is_image(&self) -> (r: bool)
        ensures
            r == (self.spec_category() == Category::Image),
    {
        self.category() == Category::Image
    }

    pub fn is_video(&self) -> (r: bool)
        ensures
            r == (self.spec_category() == Category::Video),
    {
        self.category() == Category::Video
    }

    pub fn is_audio(&self) -> (r: bool)
        ensures
            r == (self.spec_category() == Category::Audio),
    {
        self.category() == Category::Audio
    }

    pub fn is_document(&self) -> (r: bool)
        ensures
            r == (self.spec_category() == Category::Document),
    {
        self.category() == Category::Document
    }

    pub fn is_archive(&self) -> (r: bool)
        ensures
            r == (self.spec_category() == Category::Archive),
    {
        self.category() == Category::Archive
    }
}

} // verus!
