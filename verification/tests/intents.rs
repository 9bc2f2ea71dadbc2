use chex_explorer::file_item::{EntryMetadata, FileItem, SortOrder, Timestamp};
use chex_explorer::intents::{
    handle_item_interaction, handle_keyboard_shortcuts, Intent, KeyInput,
};
use chex_explorer::status::{selected_size, selection_summary, tab_label};

fn keys() -> KeyInput {
    KeyInput {
        ctrl: false,
        alt: false,
        key_a: false,
        key_h: false,
        escape: false,
        f5: false,
        arrow_left: false,
        arrow_right: false,
        arrow_up: false,
    }
}

fn item(path: &str, is_dir: bool, is_file: bool, size: u64) -> FileItem {
    FileItem::from_path(
        path,
        EntryMetadata {
            is_dir,
            is_file,
            is_symlink: !is_dir && !is_file,
            size,
            modified: Timestamp { secs: 0, nanos: 0 },
            created: None,
            accessed: None,
            readonly: false,
            hidden_attribute: None,
        },
    )
}

#[test]
fn keys_without_their_modifier_ask_for_nothing() {
    let mut k = keys();
    k.key_a = true;
    k.key_h = true;
    k.arrow_left = true;
    k.arrow_right = true;
    k.arrow_up = true;
    assert!(handle_keyboard_shortcuts(k).is_empty());
    assert!(handle_keyboard_shortcuts(keys()).is_empty());
}

#[test]
fn each_shortcut_asks_for_its_request() {
    let mut k = keys();
    k.ctrl = true;
    k.key_a = true;
    assert_eq!(handle_keyboard_shortcuts(k), vec![Intent::SelectAll]);
    let mut k = keys();
    k.escape = true;
    assert_eq!(handle_keyboard_shortcuts(k), vec![Intent::ClearSelection]);
    let mut k = keys();
    k.f5 = true;
    assert_eq!(handle_keyboard_shortcuts(k), vec![Intent::Refresh]);
    let mut k = keys();
    k.alt = true;
    k.arrow_left = true;
    assert_eq!(handle_keyboard_shortcuts(k), vec![Intent::GoBack]);
    k.arrow_left = false;
    k.arrow_right = true;
    assert_eq!(handle_keyboard_shortcuts(k), vec![Intent::GoForward]);
    k.arrow_right = false;
    k.arrow_up = true;
    assert_eq!(handle_keyboard_shortcuts(k), vec![Intent::GoUp]);
    let mut k = keys();
    k.ctrl = true;
    k.key_h = true;
    assert_eq!(handle_keyboard_shortcuts(k), vec![Intent::ToggleHidden]);
}

#[test]
fn shortcuts_pressed_together_are_served_in_a_fixed_order() {
    let k = KeyInput {
        ctrl: true,
        alt: true,
        key_a: true,
        key_h: true,
        escape: true,
        f5: true,
        arrow_left: true,
        arrow_right: true,
        arrow_up: true,
    };
    assert_eq!(
        handle_keyboard_shortcuts(k),
        vec![
            Intent::SelectAll,
            Intent::ClearSelection,
            Intent::Refresh,
            Intent::GoBack,
            Intent::GoForward,
            Intent::GoUp,
            Intent::ToggleHidden,
        ]
    );
}

#[test]
fn clicks_select_and_double_clicks_visit_or_open() {
    let p = || "/d/x".to_string();
    assert!(handle_item_interaction(1, p(), true, false, false, true).is_empty());
    assert_eq!(
        handle_item_interaction(4, p(), false, true, false, false),
        vec![Intent::Select { index: 4, additive: false }]
    );
    assert_eq!(
        handle_item_interaction(4, p(), false, true, false, true),
        vec![Intent::Select { index: 4, additive: true }]
    );
    assert_eq!(
        handle_item_interaction(2, p(), true, true, true, false),
        vec![Intent::Select { index: 2, additive: false }, Intent::Navigate { path: p() }]
    );
    assert_eq!(
        handle_item_interaction(2, p(), false, false, true, false),
        vec![Intent::Open { path: p() }]
    );
}

#[test]
fn sort_direction_flips() {
    assert_eq!(SortOrder::Ascending.flipped(), SortOrder::Descending);
    assert_eq!(SortOrder::Descending.flipped(), SortOrder::Ascending);
}

#[test]
fn listing_icons_and_kinds_follow_the_entry() {
    assert_eq!(item("/d/sub.png", true, false, 0).get_file_icon(), "📁");
    assert_eq!(item("/d/a.png", false, true, 0).get_file_icon(), "🖼");
    assert_eq!(item("/d/a.avi", false, true, 0).get_file_icon(), "🎬");
    assert_eq!(item("/d/a.m4a", false, true, 0).get_file_icon(), "🎵");
    assert_eq!(item("/d/a.rtf", false, true, 0).get_file_icon(), "📄");
    assert_eq!(item("/d/a.xz", false, true, 0).get_file_icon(), "📦");
    assert_eq!(item("/d/a.rs", false, true, 0).get_file_icon(), "📄");
    assert_eq!(item("/d/link", false, false, 0).get_file_icon(), "🔗");
    assert_eq!(item("/d/sub", true, false, 0).kind_label(), "Folder");
    assert_eq!(item("/d/a.PNG", false, true, 0).kind_label(), "png");
    assert_eq!(item("/d/a", false, true, 0).kind_label(), "File");
    assert_eq!(item("/d/link", false, false, 0).kind_label(), "Link");
    let mut other = item("/d/dev", false, false, 0);
    other.file_type = chex_explorer::file_item::FileType::Other;
    assert_eq!(other.get_file_icon(), "❓");
    assert_eq!(other.kind_label(), "Other");
}

#[test]
fn status_line_counts_items_and_selection() {
    assert_eq!(selection_summary(0, 12), "12 items");
    assert_eq!(selection_summary(3, 12), "3 of 12 items selected");
    assert_eq!(selection_summary(0, 0), "0 items");
}

#[test]
fn selected_size_skips_positions_outside_the_snapshot() {
    let items = vec![item("/d/a", false, true, 10), item("/d/b", false, true, 20), item("/d/c", true, false, 7)];
    assert_eq!(selected_size(&items, &vec![0, 2]), 17);
    assert_eq!(selected_size(&items, &vec![1, 9, 1]), 40);
    assert_eq!(selected_size(&items, &Vec::new()), 0);
    let huge = vec![item("/d/a", false, true, u64::MAX), item("/d/b", false, true, 1)];
    assert_eq!(selected_size(&huge, &vec![0, 1]), u64::MAX);
}

#[test]
fn long_tab_titles_are_cut_to_the_limit() {
    assert_eq!(tab_label("short"), "short");
    assert_eq!(tab_label("exactly-twenty-chars"), "exactly-twenty-chars");
    assert_eq!(tab_label("a-title-of-twenty-one"), "a-title-of-twenty...");
    assert_eq!(tab_label(&"é".repeat(30)), format!("{}...", "é".repeat(17)));
}
