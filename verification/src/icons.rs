//! Icons and colours by which entries are told apart at a glance.

use vstd::prelude::*;
use crate::file_item::lower_extension;
use crate::paths::extension;
use crate::text::{same_text, to_lower};

verus! {

/// The lowercase extension of a file name, or the empty text where
/// it has none.
pub open spec fn extension_key(file_name: Seq<char>) -> Seq<char> {
    match lower_extension(file_name) {
        Some(e) => e,
        None => Seq::empty(),
    }
}

fn extension_key_of(file_name: &str) -> (e: String)
    ensures
        e@ == extension_key(file_name@),
{
    match extension(file_name) {
        Some(e) => to_lower(e.as_str()),
        None => String::new(),
    }
}

/// The icon for a lowercase extension.
pub open spec fn icon_of_extension(e: Seq<char>) -> Seq<char> {
    if e == "jpg"@
        || e == "jpeg"@
        || e == "png"@
        || e == "gif"@
        || e == "bmp"@
        || e == "webp"@
        || e == "tiff"@
        || e == "svg"@ {
        "🖼"@
    } else if e == "mp4"@
        || e == "avi"@
        || e == "mkv"@
        || e == "mov"@
        || e == "wmv"@
        || e == "flv"@
        || e == "webm"@
        || e == "m4v"@ {
        "🎬"@
    } else if e == "mp3"@
        || e == "wav"@
        || e == "flac"@
        || e == "aac"@
        || e == "ogg"@
        || e == "wma"@
        || e == "m4a"@ {
        "🎵"@
    } else if e == "pdf"@ {
        "📄"@
    } else if e == "doc"@
        || e == "docx"@ {
        "📝"@
    } else if e == "xls"@
        || e == "xlsx"@ {
        "📊"@
    } else if e == "ppt"@
        || e == "pptx"@ {
        "📋"@
    } else if e == "txt"@
        || e == "md"@
        || e == "rst"@ {
        "📄"@
    } else if e == "zip"@
        || e == "rar"@
        || e == "7z"@
        || e == "tar"@
        || e == "gz"@
        || e == "bz2"@ {
        "📦"@
    } else if e == "rs"@ {
        "🦀"@
    } else if e == "py"@ {
        "🐍"@
    } else if e == "js"@
        || e == "ts"@ {
        "📜"@
    } else if e == "html"@
        || e == "htm"@ {
        "🌐"@
    } else if e == "css"@ {
        "🎨"@
    } else if e == "json"@
        || e == "xml"@
        || e == "yaml"@
        || e == "yml"@ {
        "⚙"@
    } else if e == "exe"@
        || e == "msi"@
        || e == "app"@
        || e == "deb"@
        || e == "rpm"@ {
        "⚙"@
    } else {
        "📄"@
    }
}

/// The icon for an entry: the folder for a directory, else the icon
/// of the name's extension.
pub open spec fn icon_of(file_name: Seq<char>, is_directory: bool) -> Seq<char> {
    if is_directory {
        "📁"@
    } else {
        icon_of_extension(extension_key(file_name))
    }
}

/// The icon for an entry.
pub fn get_file_icon_unicode(file_name: &str, is_directory: bool) -> (icon: &'static str)
    ensures
        icon@ == icon_of(file_name@, is_directory),
{
    if is_directory {
        return "📁";
    }
    let key = extension_key_of(file_name);
    icon_for_extension(key.as_str())
}

/// The icon for an extension, which is given in lowercase.
pub fn icon_for_extension(e: &str) -> (icon: &'static str)
    ensures
        icon@ == icon_of_extension(e@),
{
    if same_text(e, "jpg")
        || same_text(e, "jpeg")
        || same_text(e, "png")
        || same_text(e, "gif")
        || same_text(e, "bmp")
        || same_text(e, "webp")
        || same_text(e, "tiff")
        || same_text(e, "svg") {
        "🖼"
    } else if same_text(e, "mp4")
        || same_text(e, "avi")
        || same_text(e, "mkv")
        || same_text(e, "mov")
        || same_text(e, "wmv")
        || same_text(e, "flv")
        || same_text(e, "webm")
        || same_text(e, "m4v") {
        "🎬"
    } else if same_text(e, "mp3")
        || same_text(e, "wav")
        || same_text(e, "flac")
        || same_text(e, "aac")
        || same_text(e, "ogg")
        || same_text(e, "wma")
        || same_text(e, "m4a") {
        "🎵"
    } else if same_text(e, "pdf") {
        "📄"
    } else if same_text(e, "doc")
        || same_text(e, "docx") {
        "📝"
    } else if same_text(e, "xls")
        || same_text(e, "xlsx") {
        "📊"
    } else if same_text(e, "ppt")
        || same_text(e, "pptx") {
        "📋"
    } else if same_text(e, "txt")
        || same_text(e, "md")
        || same_text(e, "rst") {
        "📄"
    } else if same_text(e, "zip")
        || same_text(e, "rar")
        || same_text(e, "7z")
        || same_text(e, "tar")
        || same_text(e, "gz")
        || same_text(e, "bz2") {
        "📦"
    } else if same_text(e, "rs") {
        "🦀"
    } else if same_text(e, "py") {
        "🐍"
    } else if same_text(e, "js")
        || same_text(e, "ts") {
        "📜"
    } else if same_text(e, "html")
        || same_text(e, "htm") {
        "🌐"
    } else if same_text(e, "css") {
        "🎨"
    } else if same_text(e, "json")
        || same_text(e, "xml")
        || same_text(e, "yaml")
        || same_text(e, "yml") {
        "⚙"
    } else if same_text(e, "exe")
        || same_text(e, "msi")
        || same_text(e, "app")
        || same_text(e, "deb")
        || same_text(e, "rpm") {
        "⚙"
    } else {
        "📄"
    }
}

/// The colour for a lowercase extension, as red, green and blue.
pub open spec fn color_of_extension(e: Seq<char>) -> (u8, u8, u8) {
    if e == "jpg"@
        || e == "jpeg"@
        || e == "png"@
        || e == "gif"@
        || e == "bmp"@
        || e == "webp"@
        || e == "tiff"@
        || e == "svg"@ {
        (186u8, 85u8, 211u8)
    } else if e == "mp4"@
        || e == "avi"@
        || e == "mkv"@
        || e == "mov"@
        || e == "wmv"@
        || e == "flv"@
        || e == "webm"@
        || e == "m4v"@ {
        (220u8, 20u8, 60u8)
    } else if e == "mp3"@
        || e == "wav"@
        || e == "flac"@
        || e == "aac"@
        || e == "ogg"@
        || e == "wma"@
        || e == "m4a"@ {
        (50u8, 205u8, 50u8)
    } else if e == "pdf"@
        || e == "doc"@
        || e == "docx"@
        || e == "xls"@
        || e == "xlsx"@
        || e == "ppt"@
        || e == "pptx"@
        || e == "txt"@
        || e == "md"@
        || e == "rst"@ {
        (70u8, 130u8, 180u8)
    } else if e == "zip"@
        || e == "rar"@
        || e == "7z"@
        || e == "tar"@
        || e == "gz"@
        || e == "bz2"@ {
        (255u8, 140u8, 0u8)
    } else if e == "rs"@
        || e == "py"@
        || e == "js"@
        || e == "ts"@
        || e == "html"@
        || e == "htm"@
        || e == "css"@
        || e == "json"@
        || e == "xml"@
        || e == "yaml"@
        || e == "yml"@ {
        (0u8, 191u8, 255u8)
    } else if e == "exe"@
        || e == "msi"@
        || e == "app"@
        || e == "deb"@
        || e == "rpm"@ {
        (255u8, 20u8, 147u8)
    } else {
        (169u8, 169u8, 169u8)
    }
}

/// The colour for an entry: yellow for a directory, else the colour
/// of the name's extension.
pub open spec fn color_of(file_name: Seq<char>, is_directory: bool) -> (u8, u8, u8) {
    if is_directory {
        (255u8, 206u8, 84u8)
    } else {
        color_of_extension(extension_key(file_name))
    }
}

/// The colour for an entry.
pub fn get_file_type_color(file_name: &str, is_directory: bool) -> (color: (u8, u8, u8))
    ensures
        color == color_of(file_name@, is_directory),
{
    if is_directory {
        return (255, 206, 84);
    }
    let key = extension_key_of(file_name);
    color_for_extension(key.as_str())
}

/// The colour for an extension, which is given in lowercase.
pub fn color_for_extension(e: &str) -> (color: (u8, u8, u8))
    ensures
        color == color_of_extension(e@),
{
    if same_text(e, "jpg")
        || same_text(e, "jpeg")
        || same_text(e, "png")
        || same_text(e, "gif")
        || same_text(e, "bmp")
        || same_text(e, "webp")
        || same_text(e, "tiff")
        || same_text(e, "svg") {
        (186, 85, 211)
    } else if same_text(e, "mp4")
        || same_text(e, "avi")
        || same_text(e, "mkv")
        || same_text(e, "mov")
        || same_text(e, "wmv")
        || same_text(e, "flv")
        || same_text(e, "webm")
        || same_text(e, "m4v") {
        (220, 20, 60)
    } else if same_text(e, "mp3")
        || same_text(e, "wav")
        || same_text(e, "flac")
        || same_text(e, "aac")
        || same_text(e, "ogg")
        || same_text(e, "wma")
        || same_text(e, "m4a") {
        (50, 205, 50)
    } else if same_text(e, "pdf")
        || same_text(e, "doc")
        || same_text(e, "docx")
        || same_text(e, "xls")
        || same_text(e, "xlsx")
        || same_text(e, "ppt")
        || same_text(e, "pptx")
        || same_text(e, "txt")
        || same_text(e, "md")
        || same_text(e, "rst") {
        (70, 130, 180)
    } else if same_text(e, "zip")
        || same_text(e, "rar")
        || same_text(e, "7z")
        || same_text(e, "tar")
        || same_text(e, "gz")
        || same_text(e, "bz2") {
        (255, 140, 0)
    } else if same_text(e, "rs")
        || same_text(e, "py")
        || same_text(e, "js")
        || same_text(e, "ts")
        || same_text(e, "html")
        || same_text(e, "htm")
        || same_text(e, "css")
        || same_text(e, "json")
        || same_text(e, "xml")
        || same_text(e, "yaml")
        || same_text(e, "yml") {
        (0, 191, 255)
    } else if same_text(e, "exe")
        || same_text(e, "msi")
        || same_text(e, "app")
        || same_text(e, "deb")
        || same_text(e, "rpm") {
        (255, 20, 147)
    } else {
        (169, 169, 169)
    }
}

} // verus!
