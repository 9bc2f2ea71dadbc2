use chex_explorer::file_item::{EntryMetadata, FileItem, SortBy, SortOrder, Timestamp};
use chex_explorer::file_manager::{
    ChangeEvent, ChangeKind, FileManager, IoFault, NavError, PathProbe, WatchSignal,
};

fn entry(path: &str, is_dir: bool, size: u64) -> FileItem {
    FileItem::from_path(
        path,
        EntryMetadata {
            is_dir,
            is_file: !is_dir,
            is_symlink: false,
            size,
            modified: Timestamp { secs: 1_700_000_000, nanos: 0 },
            created: None,
            accessed: None,
            readonly: false,
            hidden_attribute: None,
        },
    )
}

fn names(fm: &FileManager) -> Vec<String> {
    fm.get_items().iter().map(|i| i.name.clone()).collect()
}

fn visit(fm: &mut FileManager, path: &str) {
    assert_eq!(fm.navigate_to(path, PathProbe::Directory, Ok(Vec::new()), true), Ok(()));
}

#[test]
fn visit_to_missing_path_is_turned_down() {
    let mut fm = FileManager::starting_at("/home".to_string());
    let r = fm.navigate_to("/nowhere", PathProbe::Missing, Err(IoFault::Other), false);
    assert_eq!(r, Err(NavError::NotFound));
    assert_eq!(fm.get_current_path(), "/home");
    assert!(!fm.can_go_back());
}

#[test]
fn visit_to_a_file_is_turned_down() {
    let mut fm = FileManager::starting_at("/home".to_string());
    let r = fm.navigate_to("/home/a.txt", PathProbe::NotDirectory, Ok(Vec::new()), true);
    assert_eq!(r, Err(NavError::NotADirectory));
    assert_eq!(fm.get_current_path(), "/home");
}

#[test]
fn unreadable_directory_is_reported_and_changes_nothing() {
    let mut fm = FileManager::starting_at("/home".to_string());
    let r = fm.navigate_to("/root", PathProbe::Directory, Err(IoFault::PermissionDenied), true);
    assert_eq!(r, Err(NavError::PermissionDenied));
    let r = fm.navigate_to("/root", PathProbe::Directory, Err(IoFault::Other), true);
    assert_eq!(r, Err(NavError::IoError));
    assert_eq!(fm.get_current_path(), "/home");
    assert_eq!(fm.get_watched_path(), None);
}

#[test]
fn back_and_forward_round_trip() {
    let mut fm = FileManager::starting_at("/home".to_string());
    visit(&mut fm, "/a");
    visit(&mut fm, "/b");
    assert_eq!(fm.back_target(), Some("/a".to_string()));
    assert_eq!(fm.go_back(Ok(Vec::new())), Ok(()));
    assert_eq!(fm.get_current_path(), "/a");
    assert_eq!(fm.forward_target(), Some("/b".to_string()));
    assert_eq!(fm.go_forward(Ok(Vec::new())), Ok(()));
    assert_eq!(fm.get_current_path(), "/b");
    assert!(!fm.can_go_forward());
}

#[test]
fn new_visit_after_going_back_discards_forward_history() {
    let mut fm = FileManager::starting_at("/home".to_string());
    visit(&mut fm, "/a");
    visit(&mut fm, "/b");
    assert_eq!(fm.go_back(Ok(Vec::new())), Ok(()));
    assert!(fm.can_go_forward());
    visit(&mut fm, "/c");
    assert!(!fm.can_go_forward());
    assert_eq!(fm.forward_target(), None);
    assert_eq!(fm.go_forward(Ok(Vec::new())), Ok(()));
    assert_eq!(fm.get_current_path(), "/c");
    assert_eq!(fm.go_back(Ok(Vec::new())), Ok(()));
    assert_eq!(fm.get_current_path(), "/a");
    assert_eq!(fm.go_back(Ok(Vec::new())), Ok(()));
    assert_eq!(fm.get_current_path(), "/home");
}

#[test]
fn visiting_the_current_path_again_adds_no_history() {
    let mut fm = FileManager::starting_at("/home".to_string());
    visit(&mut fm, "/a");
    visit(&mut fm, "/a");
    assert_eq!(fm.go_back(Ok(Vec::new())), Ok(()));
    assert_eq!(fm.get_current_path(), "/home");
    assert!(!fm.can_go_back());
}

#[test]
fn going_back_at_the_start_does_nothing() {
    let mut fm = FileManager::starting_at("/home".to_string());
    assert_eq!(fm.back_target(), None);
    assert_eq!(fm.go_back(Err(IoFault::Other)), Ok(()));
    assert_eq!(fm.get_current_path(), "/home");
}

#[test]
fn failed_read_on_the_way_back_keeps_the_cursor() {
    let mut fm = FileManager::starting_at("/home".to_string());
    visit(&mut fm, "/a");
    assert_eq!(fm.go_back(Err(IoFault::Other)), Err(NavError::IoError));
    assert_eq!(fm.get_current_path(), "/a");
    assert!(fm.can_go_back());
}

#[test]
fn go_up_visits_the_parent() {
    let mut fm = FileManager::starting_at("/home/user".to_string());
    assert_eq!(fm.up_target(), Some("/home".to_string()));
    assert_eq!(fm.go_up(PathProbe::Directory, Ok(Vec::new()), true), Ok(()));
    assert_eq!(fm.get_current_path(), "/home");
    assert_eq!(fm.get_watched_path(), Some("/home".to_string()));
    assert!(fm.can_go_back());
}

#[test]
fn go_up_from_the_root_does_nothing() {
    let mut fm = FileManager::starting_at("/".to_string());
    assert_eq!(fm.up_target(), None);
    assert_eq!(fm.go_up(PathProbe::Missing, Err(IoFault::Other), false), Ok(()));
    assert_eq!(fm.get_current_path(), "/");
    assert!(!fm.can_go_back());
}

#[test]
fn refresh_puts_directories_first_and_clears_selection() {
    let mut fm = FileManager::starting_at("/home".to_string());
    let listing = vec![
        entry("/home/b.txt", false, 5),
        entry("/home/zeta", true, 0),
        entry("/home/A.txt", false, 9),
        entry("/home/alpha", true, 0),
    ];
    fm.select_item(7, false);
    assert_eq!(fm.refresh_items(Ok(listing)), Ok(()));
    assert_eq!(names(&fm), vec!["alpha", "zeta", "A.txt", "b.txt"]);
    assert!(fm.get_selected_items().is_empty());
    assert!(!fm.can_go_back());
}

#[test]
fn toggling_hidden_adds_and_removes_exactly_the_dotfiles() {
    let listing = || {
        vec![
            entry("/home/.profile", false, 1),
            entry("/home/notes.txt", false, 2),
            entry("/home/.cache", true, 0),
            entry("/home/docs", true, 0),
        ]
    };
    let mut fm = FileManager::starting_at("/home".to_string());
    assert_eq!(fm.refresh_items(Ok(listing())), Ok(()));
    assert_eq!(names(&fm), vec!["docs", "notes.txt"]);
    assert_eq!(fm.toggle_show_hidden(Ok(listing())), Ok(()));
    assert!(fm.get_show_hidden());
    assert_eq!(names(&fm), vec![".cache", "docs", ".profile", "notes.txt"]);
    assert_eq!(fm.toggle_show_hidden(Ok(listing())), Ok(()));
    assert!(!fm.get_show_hidden());
    assert_eq!(names(&fm), vec!["docs", "notes.txt"]);
}

#[test]
fn set_sort_reorders_the_snapshot() {
    let listing = || {
        vec![
            entry("/home/small.txt", false, 1),
            entry("/home/big.txt", false, 100),
            entry("/home/dir", true, 50),
        ]
    };
    let mut fm = FileManager::starting_at("/home".to_string());
    assert_eq!(fm.set_sort(SortBy::Size, SortOrder::Descending, Ok(listing())), Ok(()));
    assert_eq!(fm.get_sort(), (SortBy::Size, SortOrder::Descending));
    assert_eq!(names(&fm), vec!["dir", "big.txt", "small.txt"]);
    assert_eq!(
        fm.set_sort(SortBy::Size, SortOrder::Ascending, Err(IoFault::Other)),
        Err(NavError::IoError)
    );
    assert_eq!(fm.get_sort(), (SortBy::Size, SortOrder::Ascending));
    assert_eq!(names(&fm), vec!["dir", "big.txt", "small.txt"]);
}

#[test]
fn selection_replaces_or_toggles() {
    let mut fm = FileManager::starting_at("/home".to_string());
    fm.select_item(2, false);
    assert_eq!(fm.get_selected_items(), &vec![2]);
    fm.select_item(5, true);
    assert_eq!(fm.get_selected_items(), &vec![2, 5]);
    fm.select_item(2, true);
    assert_eq!(fm.get_selected_items(), &vec![5]);
    fm.select_item(9, false);
    assert_eq!(fm.get_selected_items(), &vec![9]);
    fm.clear_selection();
    assert!(fm.get_selected_items().is_empty());
}

#[test]
fn checked_selection_rejects_positions_outside_the_snapshot() {
    let mut fm = FileManager::starting_at("/home".to_string());
    let listing = vec![entry("/home/a", false, 1), entry("/home/b", false, 1)];
    assert_eq!(fm.refresh_items(Ok(listing)), Ok(()));
    assert_eq!(fm.select_checked(1, false), Ok(()));
    assert_eq!(fm.select_checked(2, true), Err(NavError::InvalidSelection));
    assert_eq!(fm.get_selected_items(), &vec![1]);
}

#[test]
fn select_all_takes_every_position() {
    let mut fm = FileManager::starting_at("/home".to_string());
    let listing =
        vec![entry("/home/a", false, 1), entry("/home/b", false, 1), entry("/home/c", true, 1)];
    assert_eq!(fm.refresh_items(Ok(listing)), Ok(()));
    fm.select_all();
    assert_eq!(fm.get_selected_items(), &vec![0, 1, 2]);
}

#[test]
fn watcher_signals_are_queued_and_drained_in_order() {
    let mut fm = FileManager::starting_at("/home".to_string());
    let change = |p: &str| {
        WatchSignal::Changed(ChangeEvent { kind: ChangeKind::Modify, paths: vec![p.to_string()] })
    };
    fm.record_signal(change("/home/ignored"));
    assert!(fm.check_file_changes().is_empty());
    visit(&mut fm, "/a");
    fm.record_signal(change("/a/one"));
    fm.record_signal(WatchSignal::Failed);
    fm.record_signal(change("/a/two"));
    let events = fm.check_file_changes();
    let paths: Vec<String> = events.iter().map(|e| e.paths[0].clone()).collect();
    assert_eq!(paths, vec!["/a/one", "/a/two"]);
    assert!(fm.check_file_changes().is_empty());
}

#[test]
fn failed_watcher_installation_does_not_fail_the_visit() {
    let mut fm = FileManager::starting_at("/home".to_string());
    visit(&mut fm, "/a");
    assert_eq!(fm.get_watched_path(), Some("/a".to_string()));
    assert_eq!(fm.navigate_to("/b", PathProbe::Directory, Ok(Vec::new()), false), Ok(()));
    assert_eq!(fm.get_current_path(), "/b");
    assert_eq!(fm.get_watched_path(), None);
    assert_eq!(fm.watch_health(), Err(NavError::WatchFailure));
    visit(&mut fm, "/c");
    assert_eq!(fm.watch_health(), Ok(()));
}

#[test]
fn new_session_is_well_formed() {
    let fm = FileManager::new();
    assert!(!fm.can_go_back());
    assert!(!fm.can_go_forward());
    assert!(fm.get_items().is_empty());
    assert!(!fm.get_show_hidden());
    assert_eq!(fm.get_sort(), (SortBy::Name, SortOrder::Ascending));
}
