use chex_explorer::file_item::{EntryMetadata, FileItem, Timestamp};
use chex_explorer::format::format_path_for_display;
use chex_explorer::status::calculate_directory_info;
use chex_explorer::tabs::{Tab, TabManager};

fn active_ids(m: &TabManager) -> Vec<u128> {
    m.get_tabs().iter().filter(|t| t.is_active).map(|t| t.id).collect()
}

fn ids(m: &TabManager) -> Vec<u128> {
    m.get_tabs().iter().map(|t| t.id).collect()
}

fn three_tabs() -> TabManager {
    let mut m = TabManager::new();
    m.add_tab_with_id(1, "one".to_string(), "/one".to_string());
    m.add_tab_with_id(2, "two".to_string(), "/two".to_string());
    m.add_tab_with_id(3, "three".to_string(), "/three".to_string());
    m
}

fn item(path: &str, is_dir: bool, size: u64) -> FileItem {
    FileItem::from_path(
        path,
        EntryMetadata {
            is_dir,
            is_file: !is_dir,
            is_symlink: false,
            size,
            modified: Timestamp { secs: 0, nanos: 0 },
            created: None,
            accessed: None,
            readonly: false,
            hidden_attribute: None,
        },
    )
}

#[test]
fn a_new_tab_becomes_the_active_one() {
    let m = three_tabs();
    assert_eq!(ids(&m), vec![1, 2, 3]);
    assert_eq!(m.get_active_id(), Some(3));
    assert_eq!(active_ids(&m), vec![3]);
    assert_eq!(m.get_active_tab().unwrap().title, "three");
}

#[test]
fn fresh_tabs_get_distinct_identifiers() {
    let a = Tab::new("a".to_string(), "/a".to_string());
    let b = Tab::new("b".to_string(), "/b".to_string());
    assert_ne!(a.id, b.id);
    assert!(!a.is_active);
    let mut m = TabManager::default();
    m.add_tab("a".to_string(), "/a".to_string());
    m.add_tab("b".to_string(), "/b".to_string());
    assert_eq!(m.get_tabs().len(), 2);
    assert_eq!(m.get_active_id(), Some(m.get_tabs()[1].id));
    assert_eq!(active_ids(&m), vec![m.get_tabs()[1].id]);
}

#[test]
fn activating_a_tab_deactivates_the_others() {
    let mut m = three_tabs();
    m.activate_tab(1);
    assert_eq!(m.get_active_id(), Some(1));
    assert_eq!(active_ids(&m), vec![1]);
    m.activate_tab(99);
    assert_eq!(m.get_active_id(), Some(99));
    assert!(active_ids(&m).is_empty());
    assert!(m.get_active_tab().is_none());
}

#[test]
fn closing_the_active_tab_activates_the_one_before() {
    let mut m = three_tabs();
    m.close_tab(3);
    assert_eq!(ids(&m), vec![1, 2]);
    assert_eq!(m.get_active_id(), Some(2));
    assert_eq!(active_ids(&m), vec![2]);
    m.activate_tab(1);
    m.close_tab(1);
    assert_eq!(ids(&m), vec![2]);
    assert_eq!(m.get_active_id(), Some(2));
    m.close_tab(2);
    assert!(m.get_tabs().is_empty());
    assert_eq!(m.get_active_id(), None);
}

#[test]
fn closing_another_tab_keeps_the_active_one() {
    let mut m = three_tabs();
    m.close_tab(1);
    assert_eq!(ids(&m), vec![2, 3]);
    assert_eq!(m.get_active_id(), Some(3));
    m.close_tab(42);
    assert_eq!(ids(&m), vec![2, 3]);
}

#[test]
fn the_active_tab_follows_the_path() {
    let mut m = three_tabs();
    m.activate_tab(2);
    m.update_active_tab_path("/home/user/projects".to_string());
    let tab = m.get_active_tab().unwrap();
    assert_eq!(tab.path, "/home/user/projects");
    assert_eq!(tab.title, "projects");
    assert_eq!(m.get_tabs()[0].path, "/one");
    let mut empty = TabManager::new();
    empty.update_active_tab_path("/x".to_string());
    assert!(empty.get_tabs().is_empty());
}

#[test]
fn directory_summary_counts_files_and_folders() {
    assert_eq!(calculate_directory_info(&Vec::new()), "Empty folder");
    let items = vec![item("/d/a", false, 1000), item("/d/b", false, 1048), item("/d/sub", true, 4096)];
    assert_eq!(calculate_directory_info(&items), "2 files, 1 folders (2.0 KB)");
    assert_eq!(calculate_directory_info(&vec![item("/d/sub", true, 1)]), "0 files, 1 folders (0 B)");
    let huge = vec![item("/d/a", false, u64::MAX), item("/d/b", false, 5)];
    assert_eq!(calculate_directory_info(&huge), "2 files, 0 folders (16777216.0 TB)");
}

#[test]
fn live_size_is_formatted_or_unknown() {
    let it = item("/d/a", false, 10);
    assert_eq!(it.get_size_formatted(Some(2048)), "2.0 KB");
    assert_eq!(it.get_size_formatted(None), "Unknown");
}

#[test]
fn short_paths_are_displayed_whole() {
    assert_eq!(format_path_for_display("/home/user/file.txt", 40), "/home/user/file.txt");
    assert_eq!(format_path_for_display("/home/user/file.txt", 19), "/home/user/file.txt");
}

#[test]
fn long_paths_keep_the_file_name() {
    assert_eq!(
        format_path_for_display("/home/user/documents/projects/report.txt", 30),
        "...cuments/projects/report.txt"
    );
    assert_eq!(format_path_for_display("/a-very-long-directory-name/f.txt", 12), "...ame/f.txt");
}

#[test]
fn paths_too_long_for_their_name_keep_their_end() {
    assert_eq!(format_path_for_display("/d/a-rather-long-file-name.txt", 10), "...ame.txt");
    assert_eq!(format_path_for_display("/d/a-rather-long-file-name.txt", 3), "...");
    assert_eq!(format_path_for_display("/d/a-rather-long-file-name.txt", 0), "...");
}
