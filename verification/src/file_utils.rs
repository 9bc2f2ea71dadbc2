//! Small helpers on file names: descriptions, the hidden-file
//! convention, and names that do not collide.

use vstd::prelude::*;
use vstd::string::*;
use crate::file_item::hidden_path;
use crate::format::{decimal, numeral_text};
use crate::paths::{
    extension,
    extension_of,
    file_name,
    file_stem,
    file_stem_of,
    join,
    joined,
    parent,
    parent_of,
};
use crate::text::{same_text, starts_with_char, to_upper, uppercase};

verus! {

/// The description of a file by its uppercase extension.
pub open spec fn description_of_extension(e: Seq<char>) -> Seq<char> {
    if e == "TXT"@ {
        "Text Document"@
    } else if e == "PDF"@ {
        "PDF Document"@
    } else if e == "DOC"@
        || e == "DOCX"@ {
        "Microsoft Word Document"@
    } else if e == "XLS"@
        || e == "XLSX"@ {
        "Microsoft Excel Spreadsheet"@
    } else if e == "PPT"@
        || e == "PPTX"@ {
        "Microsoft PowerPoint Presentation"@
    } else if e == "ZIP"@ {
        "ZIP Archive"@
    } else if e == "RAR"@ {
        "RAR Archive"@
    } else if e == "7Z"@ {
        "7-Zip Archive"@
    } else if e == "JPG"@
        || e == "JPEG"@ {
        "JPEG Image"@
    } else if e == "PNG"@ {
        "PNG Image"@
    } else if e == "GIF"@ {
        "GIF Image"@
    } else if e == "BMP"@ {
        "Bitmap Image"@
    } else if e == "SVG"@ {
        "SVG Vector Image"@
    } else if e == "MP3"@ {
        "MP3 Audio"@
    } else if e == "WAV"@ {
        "Wave Audio"@
    } else if e == "MP4"@ {
        "MP4 Video"@
    } else if e == "AVI"@ {
        "AVI Video"@
    } else if e == "MKV"@ {
        "Matroska Video"@
    } else if e == "HTML"@
        || e == "HTM"@ {
        "HTML Document"@
    } else if e == "CSS"@ {
        "CSS Stylesheet"@
    } else if e == "JS"@ {
        "JavaScript File"@
    } else if e == "JSON"@ {
        "JSON File"@
    } else if e == "XML"@ {
        "XML Document"@
    } else if e == "EXE"@ {
        "Application"@
    } else if e == "DLL"@ {
        "Dynamic Link Library"@
    } else {
        e + " File"@
    }
}

/// The description of what a path names: a folder, a file without
/// extension, or a file described by its extension.
pub open spec fn description_of(path: Seq<char>, is_dir: bool) -> Seq<char> {
    if is_dir {
        "Folder"@
    } else {
        match extension_of(path) {
            Some(e) => description_of_extension(uppercase(e)),
            None => "File"@,
        }
    }
}

/// Describes a file by its extension, which is given in uppercase.
pub fn describe_extension(e: &str) -> (d: String)
    ensures
        d@ == description_of_extension(e@),
{
    if same_text(e, "TXT") {
        String::from_str("Text Document")
    } else if same_text(e, "PDF") {
        String::from_str("PDF Document")
    } else if same_text(e, "DOC")
        || same_text(e, "DOCX") {
        String::from_str("Microsoft Word Document")
    } else if same_text(e, "XLS")
        || same_text(e, "XLSX") {
        String::from_str("Microsoft Excel Spreadsheet")
    } else if same_text(e, "PPT")
        || same_text(e, "PPTX") {
        String::from_str("Microsoft PowerPoint Presentation")
    } else if same_text(e, "ZIP") {
        String::from_str("ZIP Archive")
    } else if same_text(e, "RAR") {
        String::from_str("RAR Archive")
    } else if same_text(e, "7Z") {
        String::from_str("7-Zip Archive")
    } else if same_text(e, "JPG")
        || same_text(e, "JPEG") {
        String::from_str("JPEG Image")
    } else if same_text(e, "PNG") {
        String::from_str("PNG Image")
    } else if same_text(e, "GIF") {
        String::from_str("GIF Image")
    } else if same_text(e, "BMP") {
        String::from_str("Bitmap Image")
    } else if same_text(e, "SVG") {
        String::from_str("SVG Vector Image")
    } else if same_text(e, "MP3") {
        String::from_str("MP3 Audio")
    } else if same_text(e, "WAV") {
        String::from_str("Wave Audio")
    } else if same_text(e, "MP4") {
        String::from_str("MP4 Video")
    } else if same_text(e, "AVI") {
        String::from_str("AVI Video")
    } else if same_text(e, "MKV") {
        String::from_str("Matroska Video")
    } else if same_text(e, "HTML")
        || same_text(e, "HTM") {
        String::from_str("HTML Document")
    } else if same_text(e, "CSS") {
        String::from_str("CSS Stylesheet")
    } else if same_text(e, "JS") {
        String::from_str("JavaScript File")
    } else if same_text(e, "JSON") {
        String::from_str("JSON File")
    } else if same_text(e, "XML") {
        String::from_str("XML Document")
    } else if same_text(e, "EXE") {
        String::from_str("Application")
    } else if same_text(e, "DLL") {
        String::from_str("Dynamic Link Library")
    } else {
        let mut d = e.to_owned();
        d.append(" File");
        d
    }
}

/// Describes what `path` names, given whether it is a directory.
pub fn get_file_type_description(path: &str, is_dir: bool) -> (d: String)
    ensures
        d@ == description_of(path@, is_dir),
{
    if is_dir {
        return String::from_str("Folder");
    }
    match extension(path) {
        Some(x) => describe_extension(to_upper(x.as_str()).as_str()),
        None => String::from_str("File"),
    }
}

/// Whether `path` is hidden by the dotfile convention: its final
/// component begins with a dot.
pub fn is_hidden_file(path: &str) -> (r: bool)
    ensures
        r == hidden_path(path@),
{
    match file_name(path) {
        Some(n) => starts_with_char(n.as_str(), '.'),
        None => false,
    }
}

/// The name tried for `path` with the number `counter`: the stem
/// of `path`, the number in brackets behind a space, and the
/// extension of `path` if it has one, in the directory of `path`, or
/// in `.` where it has none.
pub open spec fn numbered_name(path: Seq<char>, counter: nat) -> Seq<char> {
    let stem = match file_stem_of(path) {
        Some(s) => s,
        None => Seq::empty(),
    };
    let base = stem + " ("@ + decimal(counter) + ")"@;
    let name = match extension_of(path) {
        Some(e) => base + "."@ + e,
        None => base,
    };
    let dir = match parent_of(path) {
        Some(p) => p,
        None => "."@,
    };
    joined(dir, name)
}

/// The names tried for `path`, in turn: first `path` itself, then
/// the numbered names from one on.
pub open spec fn name_candidate(path: Seq<char>, k: nat) -> Seq<char> {
    if k == 0 {
        path
    } else {
        numbered_name(path, k)
    }
}

/// Whether `p` is among the paths in `existing`.
pub open spec fn is_taken(existing: Seq<String>, p: Seq<char>) -> bool {
    exists|i: int| 0 <= i < existing.len() && (#[trigger] existing[i])@ == p
}

fn taken(existing: &Vec<String>, p: &str) -> (r: bool)
    ensures
        r == is_taken(existing@, p@),
{
    let n: usize = existing.len();
    let mut i: usize = 0;
    while i < n
        invariant
            n == existing@.len(),
            i <= n,
            forall|j: int| 0 <= j < i ==> (#[trigger] existing@[j])@ != p@,
        decreases n - i,
    {
        if same_text(existing[i].as_str(), p) {
            return true;
        }
        i += 1;
    }
    false
}

fn numbered(path: &str, counter: u64) -> (r: String)
    ensures
        r@ == numbered_name(path@, counter as nat),
{
    let mut name = match file_stem(path) {
        Some(s) => s,
        None => String::new(),
    };
    name.append(" (");
    name.append(numeral_text(counter, 10).as_str());
    name.append(")");
    match extension(path) {
        Some(e) => {
            name.append(".");
            name.append(e.as_str());
        },
        None => {},
    }
    let dir = match parent(path) {
        Some(p) => p,
        None => String::from_str("."),
    };
    let ghost stem = match file_stem_of(path@) {
        Some(s) => s,
        None => Seq::<char>::empty(),
    };
    assert(Seq::<char>::empty() + " ("@ =~= " ("@);
    assert(stem + " ("@ + decimal(counter as nat) + ")"@ + "."@ =~= (stem + " ("@ + decimal(
        counter as nat,
    ) + ")"@) + "."@);
    join(dir.as_str(), name.as_str())
}

/// A name for `path` that is not among `existing`, the paths already
/// in use: `path` itself where it is free, else its numbered name
/// with the least number from one on that is free. Numbers are tried
/// up to the largest there is; `None` says that every one of them is
/// taken.
pub fn ensure_unique_filename(path: &str, existing: &Vec<String>) -> (r: Option<String>)
    ensures
        r.is_some() ==> !is_taken(existing@, r.unwrap()@) && exists|k: nat|
            k <= u64::MAX && r.unwrap()@ == #[trigger] name_candidate(path@, k) && forall|j: nat|
                j < k ==> is_taken(existing@, #[trigger] name_candidate(path@, j)),
        r.is_none() ==> forall|k: nat|
            k <= u64::MAX ==> is_taken(existing@, #[trigger] name_candidate(path@, k)),
        !is_taken(existing@, path@) ==> r.is_some() && r.unwrap()@ == path@,
{
    if !taken(existing, path) {
        assert(path@ == name_candidate(path@, 0));
        return Some(path.to_owned());
    }
    let mut tried: u64 = 0;
    while tried < u64::MAX
        invariant
            is_taken(existing@, path@),
            forall|j: nat| j <= tried ==> is_taken(existing@, #[trigger] name_candidate(path@, j)),
        decreases u64::MAX - tried,
    {
        let counter: u64 = tried + 1;
        let candidate = numbered(path, counter);
        if !taken(existing, candidate.as_str()) {
            assert(candidate@ == name_candidate(path@, counter as nat));
            return Some(candidate);
        }
        assert(is_taken(existing@, name_candidate(path@, counter as nat)));
        tried += 1;
    }
    None
}

} // verus!
