//! The texts of the listing and the status line: icons, kinds,
//! counts and sizes.

use vstd::prelude::*;
use vstd::string::*;
use crate::file_item::{Category, FileItem, FileType};
use crate::format::{decimal, format_file_size, numeral_text, size_text};

verus! {

/// How many of the first `n` entries are of the given kind.
pub open spec fn count_of_kind(items: Seq<FileItem>, kind: FileType, n: int) -> int
    decreases n,
{
    if n <= 0 {
        0
    } else {
        count_of_kind(items, kind, n - 1) + (if items[n - 1].file_type == kind { 1int } else { 0int })
    }
}

/// The bytes held by the regular files among the first `n` entries.
pub open spec fn file_bytes(items: Seq<FileItem>, n: int) -> int
    decreases n,
{
    if n <= 0 {
        0
    } else {
        file_bytes(items, n - 1) + (if items[n - 1].file_type == FileType::RegularFile {
            items[n - 1].size as int
        } else {
            0int
        })
    }
}

/// The summary of a snapshot: the number of regular files and of
/// folders, and the size of the files together, which stays at the
/// largest value where it is beyond it; or a note that the folder is
/// empty where it holds neither.
pub open spec fn directory_info(items: Seq<FileItem>) -> Seq<char> {
    let n = items.len() as int;
    let files = count_of_kind(items, FileType::RegularFile, n);
    let folders = count_of_kind(items, FileType::Directory, n);
    let bytes = if file_bytes(items, n) > u64::MAX { u64::MAX as int } else { file_bytes(items, n) };
    if files > 0 || folders > 0 {
        decimal(files as nat) + " files, "@ + decimal(folders as nat) + " folders ("@ + size_text(
            bytes as nat,
        ) + ")"@
    } else {
        "Empty folder"@
    }
}

/// The size shown for an entry, given its size on disk at this
/// moment, or nothing where the entry can no longer be examined.
pub open spec fn live_size_text(live_size: Option<u64>) -> Seq<char> {
    match live_size {
        Some(size) => size_text(size as nat),
        None => "Unknown"@,
    }
}

impl FileItem {
    /// Formats the size that the entry has on disk at this moment.
    pub fn get_size_formatted(&self, live_size: Option<u64>) -> (s: String)
        ensures
            s@ == live_size_text(live_size),
    {
        match live_size {
            Some(size) => format_file_size(size),
            None => String::from_str("Unknown"),
        }
    }
}

/// The icon shown for an entry in a listing.
pub open spec fn listing_icon(item: FileItem) -> Seq<char> {
    match item.file_type {
        FileType::Directory => "📁"@,
        FileType::RegularFile => match item.spec_category() {
            Category::Image => "🖼"@,
            Category::Video => "🎬"@,
            Category::Audio => "🎵"@,
            Category::Archive => "📦"@,
            _ => "📄"@,
        },
        FileType::SymbolicLink => "🔗"@,
        FileType::Other => "❓"@,
    }
}

/// The word shown for the kind of an entry: for a regular file its
/// extension, if it has one.
pub open spec fn kind_text(item: FileItem) -> Seq<char> {
    match item.file_type {
        FileType::Directory => "Folder"@,
        FileType::RegularFile => match item.extension {
            Some(e) => e@,
            None => "File"@,
        },
        FileType::SymbolicLink => "Link"@,
        FileType::Other => "Other"@,
    }
}

/// The line that counts the entries and the selected among them.
pub open spec fn count_text(selected: nat, total: nat) -> Seq<char> {
    if selected > 0 {
        decimal(selected) + " of "@ + decimal(total) + " items selected"@
    } else {
        decimal(total) + " items"@
    }
}

/// The bytes held by those of the first `n` selected positions that
/// the snapshot has.
pub open spec fn selected_bytes(items: Seq<FileItem>, selection: Seq<usize>, n: int) -> int
    decreases n,
{
    if n <= 0 {
        0
    } else {
        selected_bytes(items, selection, n - 1) + (if selection[n - 1] < items.len() {
            items[selection[n - 1] as int].size as int
        } else {
            0int
        })
    }
}

/// How many characters of a tab's title are shown at most.
pub const TAB_TITLE_LIMIT: usize = 20;

/// The title shown on a tab: the title itself up to the limit, else
/// its beginning and an ellipsis, which together fill the limit.
pub open spec fn tab_text(title: Seq<char>) -> Seq<char> {
    if title.len() > TAB_TITLE_LIMIT {
        title.subrange(0, TAB_TITLE_LIMIT - 3) + "..."@
    } else {
        title
    }
}

impl FileItem {
    /// The icon shown for this entry in a listing.
    pub fn get_file_icon(&self) -> (icon: &'static str)
        ensures
            icon@ == listing_icon(*self),
    {
        match self.file_type {
            FileType::Directory => "📁",
            FileType::RegularFile => match self.category() {
                Category::Image => "🖼",
                Category::Video => "🎬",
                Category::Audio => "🎵",
                Category::Archive => "📦",
                _ => "📄",
            },
            FileType::SymbolicLink => "🔗",
            FileType::Other => "❓",
        }
    }

    /// The word shown for the kind of this entry.
    pub fn kind_label(&self) -> (label: String)
        ensures
            label@ == kind_text(*self),
    {
        match self.file_type {
            FileType::Directory => String::from_str("Folder"),
            FileType::RegularFile => match &self.extension {
                Some(e) => e.clone(),
                None => String::from_str("File"),
            },
            FileType::SymbolicLink => String::from_str("Link"),
            FileType::Other => String::from_str("Other"),
        }
    }
}

/// Counts the entries and the selected among them in one line.
pub fn selection_summary(selected: usize, total: usize) -> (s: String)
    ensures
        s@ == count_text(selected as nat, total as nat),
{
    if selected > 0 {
        let mut s = numeral_text(selected as u64, 10);
        s.append(" of ");
        s.append(numeral_text(total as u64, 10).as_str());
        s.append(" items selected");
        s
    } else {
        let mut s = numeral_text(total as u64, 10);
        s.append(" items");
        s
    }
}

/// Adds up the sizes of the selected entries. Positions that the
/// snapshot does not have count for nothing; a sum beyond the range
/// stays at the largest value.
pub fn selected_size(items: &Vec<FileItem>, selection: &Vec<usize>) -> (bytes: u64)
    ensures
        bytes == (if selected_bytes(items@, selection@, selection@.len() as int) > u64::MAX {
            u64::MAX as int
        } else {
            selected_bytes(items@, selection@, selection@.len() as int)
        }),
{
    let n: usize = selection.len();
    let mut bytes: u64 = 0;
    let mut i: usize = 0;
    while i < n
        invariant
            n == selection@.len(),
            i <= n,
            0 <= selected_bytes(items@, selection@, i as int),
            bytes == (if selected_bytes(items@, selection@, i as int) > u64::MAX {
                u64::MAX as int
            } else {
                selected_bytes(items@, selection@, i as int)
            }),
        decreases n - i,
    {
        let at: usize = selection[i];
        if at < items.len() {
            bytes = bytes.saturating_add(items[at].size);
        }
        i += 1;
    }
    bytes
}

/// The title shown on a tab.
pub fn tab_label(title: &str) -> (s: String)
    ensures
        s@ == tab_text(title@),
{
    if title.unicode_len() > TAB_TITLE_LIMIT {
        let mut s = title.substring_char(0, TAB_TITLE_LIMIT - 3).to_owned();
        s.append("...");
        s
    } else {
        title.to_owned()
    }
}

/// Summarises a snapshot in one line.
pub fn calculate_directory_info(items: &Vec<FileItem>) -> (s: String)
    ensures
        s@ == directory_info(items@),
{
    let n: usize = items.len();
    let mut files: usize = 0;
    let mut folders: usize = 0;
    let mut bytes: u64 = 0;
    let mut i: usize = 0;
    while i < n
        invariant
            n == items@.len(),
            i <= n,
            files == count_of_kind(items@, FileType::RegularFile, i as int),
            folders == count_of_kind(items@, FileType::Directory, i as int),
            files <= i,
            folders <= i,
            0 <= file_bytes(items@, i as int),
            bytes == (if file_bytes(items@, i as int) > u64::MAX {
                u64::MAX as int
            } else {
                file_bytes(items@, i as int)
            }),
        decreases n - i,
    {
        match items[i].file_type {
            FileType::RegularFile => {
                files += 1;
                bytes = bytes.saturating_add(items[i].size);
            },
            FileType::Directory => {
                folders += 1;
            },
            _ => {},
        }
        i += 1;
    }
    if files > 0 || folders > 0 {
        let mut s = numeral_text(files as u64, 10);
        s.append(" files, ");
        s.append(numeral_text(folders as u64, 10).as_str());
        s.append(" folders (");
        s.append(format_file_size(bytes).as_str());
        s.append(")");
        s
    } else {
        String::from_str("Empty folder")
    }
}

} // verus!
