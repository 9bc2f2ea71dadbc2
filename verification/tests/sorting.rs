use chex_explorer::arrange::{build_snapshot, key_le_given, text_le};
use chex_explorer::file_item::{
    classify_extension, Category, EntryMetadata, FileItem, FileType, SortBy, SortOrder, Timestamp,
};

fn meta(is_dir: bool, size: u64, modified: i64, created: Option<i64>) -> EntryMetadata {
    EntryMetadata {
        is_dir,
        is_file: !is_dir,
        is_symlink: false,
        size,
        modified: Timestamp { secs: modified, nanos: 0 },
        created: created.map(|s| Timestamp { secs: s, nanos: 0 }),
        accessed: None,
        readonly: false,
        hidden_attribute: None,
    }
}

fn file(name: &str, size: u64, modified: i64) -> FileItem {
    FileItem::from_path(&format!("/d/{}", name), meta(false, size, modified, Some(modified)))
}

fn dir(name: &str, modified: i64) -> FileItem {
    FileItem::from_path(&format!("/d/{}", name), meta(true, 0, modified, None))
}

fn names(items: &[FileItem]) -> Vec<String> {
    items.iter().map(|i| i.name.clone()).collect()
}

fn sample() -> Vec<FileItem> {
    vec![
        file("delta.txt", 40, 4),
        dir("Zoo", 9),
        file("Bravo.md", 10, 2),
        file("alpha.rs", 30, 3),
        dir("apps", 1),
        file("charlie", 20, 1),
    ]
}

#[test]
fn from_path_reads_name_extension_and_kind() {
    let item = FileItem::from_path("/srv/data/Photo.JPG", meta(false, 12, 5, None));
    assert_eq!(item.name, "Photo.JPG");
    assert_eq!(item.path, "/srv/data/Photo.JPG");
    assert_eq!(item.file_type, FileType::RegularFile);
    assert_eq!(item.size, 12);
    assert_eq!(item.extension, Some("jpg".to_string()));
    assert_eq!(item.mime_type, Some("image/jpeg".to_string()));
    assert!(!item.is_hidden);
    assert!(!item.is_selected);
    assert!(item.is_image());
    assert!(!item.is_video());
    assert_eq!(item.category(), Category::Image);
}

#[test]
fn from_path_without_extension_has_no_mime_type() {
    let item = FileItem::from_path("/srv/.hidden", meta(false, 1, 1, None));
    assert_eq!(item.name, ".hidden");
    assert_eq!(item.extension, None);
    assert_eq!(item.mime_type, None);
    assert!(item.is_hidden);
    assert_eq!(item.category(), Category::Unclassified);
}

#[test]
fn hidden_attribute_overrides_the_dotfile_convention() {
    let mut m = meta(false, 1, 1, None);
    m.hidden_attribute = Some(true);
    assert!(FileItem::from_path("/srv/plain.txt", m).is_hidden);
    m.hidden_attribute = Some(false);
    assert!(!FileItem::from_path("/srv/.dotted", m).is_hidden);
    m.hidden_attribute = None;
    assert!(FileItem::from_path("/srv/.dotted", m).is_hidden);
}

#[test]
fn unknown_extension_falls_back_to_octet_stream() {
    let item = FileItem::from_path("/srv/blob.qqqzzz", meta(false, 1, 1, None));
    assert_eq!(item.mime_type, Some("application/octet-stream".to_string()));
}

#[test]
fn kind_prefers_directory_then_file_then_link() {
    let mut m = meta(true, 0, 0, None);
    m.is_file = true;
    m.is_symlink = true;
    assert_eq!(FileItem::from_path("/x", m).file_type, FileType::Directory);
    m.is_dir = false;
    assert_eq!(FileItem::from_path("/x", m).file_type, FileType::RegularFile);
    m.is_file = false;
    assert_eq!(FileItem::from_path("/x", m).file_type, FileType::SymbolicLink);
    m.is_symlink = false;
    assert_eq!(FileItem::from_path("/x", m).file_type, FileType::Other);
}

#[test]
fn directories_rank_before_every_other_kind() {
    assert!(FileType::Directory.ranks_before(&FileType::RegularFile));
    assert!(FileType::Directory.ranks_before(&FileType::Other));
    assert!(!FileType::Directory.ranks_before(&FileType::Directory));
    assert!(!FileType::RegularFile.ranks_before(&FileType::Directory));
    assert!(!FileType::SymbolicLink.ranks_before(&FileType::RegularFile));
}

#[test]
fn categories_follow_the_extension_table() {
    assert_eq!(classify_extension("png"), Category::Image);
    assert_eq!(classify_extension("mkv"), Category::Video);
    assert_eq!(classify_extension("flac"), Category::Audio);
    assert_eq!(classify_extension("odt"), Category::Document);
    assert_eq!(classify_extension("lzma"), Category::Archive);
    assert_eq!(classify_extension("rs"), Category::Unclassified);
    assert_eq!(classify_extension("PNG"), Category::Unclassified);
    let doc = FileItem::from_path("/a/b.PDF", meta(false, 1, 1, None));
    assert!(doc.is_document());
    assert!(FileItem::from_path("/a/b.mp3", meta(false, 1, 1, None)).is_audio());
    assert!(FileItem::from_path("/a/b.7z", meta(false, 1, 1, None)).is_archive());
    assert!(FileItem::from_path("/a/b.webm", meta(false, 1, 1, None)).is_video());
}

#[test]
fn name_sort_ignores_case_and_keeps_directories_first() {
    let mut items = sample();
    FileItem::sort_items(&mut items, SortBy::Name, SortOrder::Ascending);
    assert_eq!(names(&items), vec!["apps", "Zoo", "alpha.rs", "Bravo.md", "charlie", "delta.txt"]);
}

#[test]
fn descending_name_sort_still_leads_with_directories() {
    let mut items = sample();
    FileItem::sort_items(&mut items, SortBy::Name, SortOrder::Descending);
    assert_eq!(names(&items), vec!["Zoo", "apps", "delta.txt", "charlie", "Bravo.md", "alpha.rs"]);
}

#[test]
fn descending_is_ascending_reversed_without_ties_in_one_group() {
    let files = || vec![file("c", 3, 30), file("a", 1, 10), file("d", 4, 40), file("b", 2, 20)];
    for by in [SortBy::Name, SortBy::Size, SortBy::Modified, SortBy::Created] {
        let mut up = files();
        let mut down = files();
        FileItem::sort_items(&mut up, by, SortOrder::Ascending);
        FileItem::sort_items(&mut down, by, SortOrder::Descending);
        let mut reversed = names(&up);
        reversed.reverse();
        assert_eq!(reversed, names(&down));
        assert_eq!(names(&up), vec!["a", "b", "c", "d"]);
    }
}

#[test]
fn size_sort_orders_files_by_size() {
    let mut items = sample();
    FileItem::sort_items(&mut items, SortBy::Size, SortOrder::Ascending);
    assert_eq!(names(&items), vec!["Zoo", "apps", "Bravo.md", "charlie", "alpha.rs", "delta.txt"]);
}

#[test]
fn modified_sort_orders_by_time_within_each_group() {
    let mut items = sample();
    FileItem::sort_items(&mut items, SortBy::Modified, SortOrder::Descending);
    assert_eq!(names(&items), vec!["Zoo", "apps", "delta.txt", "alpha.rs", "Bravo.md", "charlie"]);
}

#[test]
fn nanoseconds_break_ties_between_equal_seconds() {
    let mut early = file("early", 1, 7);
    early.modified = Timestamp { secs: 7, nanos: 5 };
    let mut late = file("late", 1, 7);
    late.modified = Timestamp { secs: 7, nanos: 900 };
    let mut items = vec![late, early];
    FileItem::sort_items(&mut items, SortBy::Modified, SortOrder::Ascending);
    assert_eq!(names(&items), vec!["early", "late"]);
}

#[test]
fn type_sort_keeps_listing_order_among_files() {
    let mut items = sample();
    FileItem::sort_items(&mut items, SortBy::Type, SortOrder::Descending);
    assert_eq!(names(&items), vec!["Zoo", "apps", "delta.txt", "Bravo.md", "alpha.rs", "charlie"]);
}

#[test]
fn created_sort_puts_unknown_creation_time_first() {
    let mut unknown = file("unknown", 1, 50);
    unknown.created = None;
    let mut items = vec![file("late", 1, 9), unknown, file("early", 1, 2)];
    FileItem::sort_items(&mut items, SortBy::Created, SortOrder::Ascending);
    assert_eq!(names(&items), vec!["unknown", "early", "late"]);
}

#[test]
fn equal_keys_keep_their_listing_order() {
    let mut items = vec![file("one", 5, 1), file("two", 5, 2), file("three", 5, 3)];
    FileItem::sort_items(&mut items, SortBy::Size, SortOrder::Ascending);
    assert_eq!(names(&items), vec!["one", "two", "three"]);
    FileItem::sort_items(&mut items, SortBy::Size, SortOrder::Descending);
    assert_eq!(names(&items), vec!["one", "two", "three"]);
}

#[test]
fn snapshot_leaves_out_hidden_entries_unless_shown() {
    let listing = || vec![file(".env", 1, 1), file("main.rs", 2, 2), dir(".git", 3), dir("src", 4)];
    let shown = build_snapshot(listing(), true, SortBy::Name, SortOrder::Ascending);
    assert_eq!(names(&shown), vec![".git", "src", ".env", "main.rs"]);
    let plain = build_snapshot(listing(), false, SortBy::Name, SortOrder::Ascending);
    assert_eq!(names(&plain), vec!["src", "main.rs"]);
    assert!(plain.len() <= shown.len());
    let kept: Vec<String> =
        shown.iter().filter(|i| !i.is_hidden).map(|i| i.name.clone()).collect();
    assert_eq!(kept, names(&plain));
}

#[test]
fn empty_listing_gives_empty_snapshot() {
    let snapshot = build_snapshot(Vec::new(), false, SortBy::Size, SortOrder::Descending);
    assert!(snapshot.is_empty());
}

#[test]
fn keys_are_compared_on_the_lowercase_names_given() {
    let a = file("Zed", 5, 1);
    let b = file("alpha", 9, 2);
    assert!(key_le_given(&a, "zed", &a, "zed", SortBy::Name));
    assert!(!key_le_given(&a, "zed", &b, "alpha", SortBy::Name));
    assert!(key_le_given(&b, "alpha", &a, "zed", SortBy::Name));
    assert!(key_le_given(&a, "Zed", &b, "alpha", SortBy::Name));
    assert!(key_le_given(&a, "", &b, "", SortBy::Size));
    assert!(!key_le_given(&b, "", &a, "", SortBy::Size));
    assert!(key_le_given(&a, "", &b, "", SortBy::Modified));
    assert!(key_le_given(&a, "", &b, "", SortBy::Type));
    assert!(key_le_given(&b, "", &a, "", SortBy::Type));
    assert!(!key_le_given(&b, "", &a, "", SortBy::Created));
    assert!(key_le_given(&dir("d", 1), "", &a, "", SortBy::Created));
    assert!(!key_le_given(&a, "", &dir("d", 1), "", SortBy::Type));
}

#[test]
fn texts_are_ordered_by_code_points() {
    assert!(text_le("", "a"));
    assert!(text_le("a", "a"));
    assert!(text_le("a", "ab"));
    assert!(!text_le("ab", "a"));
    assert!(text_le("Z", "a"));
    assert!(text_le("z", "é"));
    assert!(!text_le("b", "a"));
}
