use chex_explorer::archive::{archive_format, ArchiveFormat};
use chex_explorer::bookmark::{Bookmark, BookmarkManager, KnownPlaces};
use chex_explorer::file_item::Timestamp;
use chex_explorer::file_utils::{
    describe_extension, ensure_unique_filename, get_file_type_description, is_hidden_file,
};
use chex_explorer::format::{format_duration, format_file_size, format_seconds, numeral_text};
use chex_explorer::operations::{
    creation_target, deletion_method, rename_target, DeletionMethod, PlanError,
};
use chex_explorer::settings::add_recent_path;
use chex_explorer::icons::{
    color_for_extension, get_file_icon_unicode, get_file_type_color, icon_for_extension,
};
use chex_explorer::thumbnail::ThumbnailGenerator;
use chex_explorer::view::ViewMode;
use std::time::Duration;

#[test]
fn durations_are_written_by_their_largest_unit() {
    assert_eq!(format_duration(Duration::from_secs(0)), "0s");
    assert_eq!(format_duration(Duration::from_secs(59)), "59s");
    assert_eq!(format_duration(Duration::from_secs(60)), "1:00");
    assert_eq!(format_duration(Duration::from_secs(125)), "2:05");
    assert_eq!(format_duration(Duration::from_secs(3600)), "1:00:00");
    assert_eq!(format_duration(Duration::from_secs(3661)), "1:01:01");
    assert_eq!(format_duration(Duration::from_millis(59_999)), "59s");
    assert_eq!(format_seconds(360_000), "100:00:00");
}

#[test]
fn numerals_are_written_without_leading_zeros() {
    assert_eq!(numeral_text(0, 10), "0");
    assert_eq!(numeral_text(1234567890, 10), "1234567890");
    assert_eq!(numeral_text(u64::MAX, 10), u64::MAX.to_string());
    assert_eq!(numeral_text(255, 16), "ff");
    assert_eq!(numeral_text(0xdead_beef, 16), "deadbeef");
    assert_eq!(numeral_text(5, 2), "101");
}

#[test]
fn icons_follow_the_extension() {
    assert_eq!(get_file_icon_unicode("anything.txt", true), "📁");
    assert_eq!(get_file_icon_unicode("photo.JPG", false), "🖼");
    assert_eq!(get_file_icon_unicode("clip.mkv", false), "🎬");
    assert_eq!(get_file_icon_unicode("song.ogg", false), "🎵");
    assert_eq!(get_file_icon_unicode("paper.pdf", false), "📄");
    assert_eq!(get_file_icon_unicode("letter.docx", false), "📝");
    assert_eq!(get_file_icon_unicode("sheet.xls", false), "📊");
    assert_eq!(get_file_icon_unicode("slides.pptx", false), "📋");
    assert_eq!(get_file_icon_unicode("bundle.tar", false), "📦");
    assert_eq!(get_file_icon_unicode("main.rs", false), "🦀");
    assert_eq!(get_file_icon_unicode("tool.py", false), "🐍");
    assert_eq!(get_file_icon_unicode("app.ts", false), "📜");
    assert_eq!(get_file_icon_unicode("index.htm", false), "🌐");
    assert_eq!(get_file_icon_unicode("style.css", false), "🎨");
    assert_eq!(get_file_icon_unicode("conf.yaml", false), "⚙");
    assert_eq!(get_file_icon_unicode("setup.msi", false), "⚙");
    assert_eq!(get_file_icon_unicode("Makefile", false), "📄");
    assert_eq!(get_file_icon_unicode("odd.xyz", false), "📄");
}

#[test]
fn colours_follow_the_extension() {
    assert_eq!(get_file_type_color("x", true), (255, 206, 84));
    assert_eq!(get_file_type_color("a.PNG", false), (186, 85, 211));
    assert_eq!(get_file_type_color("a.mp4", false), (220, 20, 60));
    assert_eq!(get_file_type_color("a.wav", false), (50, 205, 50));
    assert_eq!(get_file_type_color("a.md", false), (70, 130, 180));
    assert_eq!(get_file_type_color("a.gz", false), (255, 140, 0));
    assert_eq!(get_file_type_color("a.json", false), (0, 191, 255));
    assert_eq!(get_file_type_color("a.deb", false), (255, 20, 147));
    assert_eq!(get_file_type_color("a", false), (169, 169, 169));
}

#[test]
fn descriptions_follow_the_extension() {
    assert_eq!(get_file_type_description("/a/b.txt", true), "Folder");
    assert_eq!(get_file_type_description("/a/b", false), "File");
    assert_eq!(get_file_type_description("/a/b.txt", false), "Text Document");
    assert_eq!(get_file_type_description("/a/b.Docx", false), "Microsoft Word Document");
    assert_eq!(get_file_type_description("/a/b.7z", false), "7-Zip Archive");
    assert_eq!(get_file_type_description("/a/b.htm", false), "HTML Document");
    assert_eq!(get_file_type_description("/a/b.dll", false), "Dynamic Link Library");
    assert_eq!(get_file_type_description("/a/b.flac", false), "FLAC File");
}

#[test]
fn dotfiles_are_hidden() {
    assert!(is_hidden_file("/home/user/.bashrc"));
    assert!(is_hidden_file(".git"));
    assert!(!is_hidden_file("/home/user/notes.txt"));
    assert!(!is_hidden_file("/home/.config/app.toml"));
    assert!(!is_hidden_file("/"));
}

#[test]
fn thumbnail_generator_keeps_directory_and_size() {
    let g = ThumbnailGenerator::in_directory("/cache/thumbs".to_string());
    assert_eq!(g.get_size(), 128);
    let g = g.with_size(256);
    assert_eq!(g.get_size(), 256);
    assert_eq!(g.get_cache_dir(), "/cache/thumbs");
}

#[test]
fn thumbnail_cache_key_joins_hash_and_time() {
    assert_eq!(ThumbnailGenerator::cache_key(0xabc, 1_700_000_000), "abc_1700000000.png");
    assert_eq!(ThumbnailGenerator::cache_key(0, 0), "0_0.png");
    assert!(ThumbnailGenerator::can_generate("webp"));
    assert!(!ThumbnailGenerator::can_generate("svg"));
    assert!(!ThumbnailGenerator::can_generate("mp4"));
}

#[test]
fn view_modes_are_distinct() {
    assert_ne!(ViewMode::List, ViewMode::Grid);
    assert_ne!(ViewMode::Grid, ViewMode::Details);
    assert_eq!(ViewMode::Details, ViewMode::Details);
}

#[test]
fn sizes_are_written_in_the_largest_unit_reached() {
    assert_eq!(format_file_size(0), "0 B");
    assert_eq!(format_file_size(1), "1 B");
    assert_eq!(format_file_size(1023), "1023 B");
    assert_eq!(format_file_size(1024), "1.0 KB");
    assert_eq!(format_file_size(1536), "1.5 KB");
    assert_eq!(format_file_size(1280), "1.2 KB");
    assert_eq!(format_file_size(1048575), "1024.0 KB");
    assert_eq!(format_file_size(1048576), "1.0 MB");
    assert_eq!(format_file_size(5 * 1024 * 1024 * 1024), "5.0 GB");
    assert_eq!(format_file_size(1u64 << 40), "1.0 TB");
    assert_eq!(format_file_size(u64::MAX), "16777216.0 TB");
}

#[test]
fn sizes_agree_with_double_precision_formatting() {
    let units = ["B", "KB", "MB", "GB", "TB"];
    let mut samples: Vec<u64> = vec![1280, 1792, 3 * 256, 5 * 256 * 1024, u64::MAX, u64::MAX - 1];
    let mut x: u64 = 0x9E37_79B9_7F4A_7C15;
    for _ in 0..2000 {
        x ^= x << 13;
        x ^= x >> 7;
        x ^= x << 17;
        samples.push(x);
        samples.push(x >> 11);
        samples.push(x >> 23);
        samples.push(x >> 37);
        samples.push(x >> 50);
    }
    for shift in 50..64 {
        for delta in 0..6u64 {
            samples.push((1u64 << shift) + delta);
            samples.push((1u64 << shift) - 1 - delta);
            samples.push((1u64 << shift) + (1u64 << (shift - 53 + 1)) / 2 + delta);
        }
    }
    for size in samples {
        if size < 1024 {
            assert_eq!(format_file_size(size), format!("{} B", size));
            continue;
        }
        let mut value = size as f64;
        let mut unit = 0;
        while value >= 1024.0 && unit < units.len() - 1 {
            value /= 1024.0;
            unit += 1;
        }
        assert_eq!(format_file_size(size), format!("{:.1} {}", value, units[unit]));
    }
}

#[test]
fn unique_names_count_up_from_one() {
    let taken: Vec<String> =
        vec!["/d/report.txt".to_string(), "/d/report (1).txt".to_string(), "/d/other".to_string()];
    assert_eq!(ensure_unique_filename("/d/free.txt", &taken), Some("/d/free.txt".to_string()));
    assert_eq!(ensure_unique_filename("/d/report.txt", &taken), Some("/d/report (2).txt".to_string()));
    assert_eq!(ensure_unique_filename("/d/other", &taken), Some("/d/other (1)".to_string()));
    assert_eq!(ensure_unique_filename("x", &vec!["x".to_string()]), Some("x (1)".to_string()));
    assert_eq!(ensure_unique_filename("/d/a.tar.gz", &vec!["/d/a.tar.gz".to_string()]), Some("/d/a.tar (1).gz".to_string()));
}

#[test]
fn archives_are_told_apart_by_extension() {
    assert_eq!(archive_format("/a/b.zip"), Some(ArchiveFormat::Zip));
    assert_eq!(archive_format("/a/b.ZIP"), Some(ArchiveFormat::Zip));
    assert_eq!(archive_format("/a/b.Tar"), Some(ArchiveFormat::Tar));
    assert_eq!(archive_format("/a/b.tar.gz"), None);
    assert_eq!(archive_format("/a/b"), None);
}

#[test]
fn recent_paths_keep_the_newest_first_without_repeats() {
    let mut recent: Vec<String> = Vec::new();
    add_recent_path(&mut recent, "/a".to_string());
    add_recent_path(&mut recent, "/b".to_string());
    add_recent_path(&mut recent, "/a".to_string());
    assert_eq!(recent, vec!["/a", "/b"]);
    for i in 0..12 {
        add_recent_path(&mut recent, format!("/dir{}", i));
    }
    assert_eq!(recent.len(), 10);
    assert_eq!(recent[0], "/dir11");
    assert_eq!(recent[9], "/dir2");
}

#[test]
fn bookmarks_are_kept_once_per_path() {
    let at = Timestamp { secs: 5, nanos: 0 };
    let mut m = BookmarkManager::default();
    assert!(m.get_bookmarks().is_empty());
    m.add_bookmark(Bookmark::new("Work".to_string(), "/work".to_string(), at));
    m.add_bookmark(Bookmark::new("Again".to_string(), "/work".to_string(), at));
    m.add_bookmark(Bookmark::new("Play".to_string(), "/play".to_string(), at).with_icon("*".to_string()));
    assert_eq!(m.get_bookmarks().len(), 2);
    assert_eq!(m.get_bookmark(0).unwrap().name, "Work");
    assert_eq!(m.get_bookmark(1).unwrap().icon, Some("*".to_string()));
    assert!(m.get_bookmark(2).is_none());
    m.remove_bookmark(5);
    assert_eq!(m.get_bookmarks().len(), 2);
    m.remove_bookmark(0);
    assert_eq!(m.get_bookmarks().len(), 1);
    assert_eq!(m.get_bookmark(0).unwrap().path, "/play");
}

#[test]
fn default_bookmarks_end_with_the_root() {
    let at = Timestamp { secs: 9, nanos: 1 };
    let m = BookmarkManager::new(at);
    let last = m.get_bookmarks().last().unwrap();
    assert_eq!(last.name, "Root");
    assert_eq!(last.path, "/");
    assert!(m.get_bookmarks().iter().all(|b| b.created_at == at && b.icon.is_none()));
    let order = ["Home", "Desktop", "Documents", "Downloads", "Pictures", "Music", "Videos", "Root"];
    let mut next = 0;
    for b in m.get_bookmarks() {
        let found = order[next..].iter().position(|n| *n == b.name).unwrap();
        next += found + 1;
    }
}

#[test]
fn default_bookmarks_follow_the_known_places() {
    let at = Timestamp { secs: 3, nanos: 0 };
    let places = KnownPlaces {
        home: Some("/home/u".to_string()),
        desktop: None,
        documents: Some("/home/u/Documents".to_string()),
        downloads: None,
        pictures: None,
        music: Some("/home/u/Music".to_string()),
        videos: None,
    };
    let m = BookmarkManager::from_places(places, at);
    let listed: Vec<(&str, &str)> =
        m.get_bookmarks().iter().map(|b| (b.name.as_str(), b.path.as_str())).collect();
    assert_eq!(
        listed,
        vec![
            ("Home", "/home/u"),
            ("Documents", "/home/u/Documents"),
            ("Music", "/home/u/Music"),
            ("Root", "/"),
        ]
    );
    assert!(m.get_bookmarks().iter().all(|b| b.created_at == at));
    let b = Bookmark::new("n".to_string(), "/p".to_string(), at);
    assert_eq!(b.created_at, at);
    assert!(b.icon.is_none());
}

#[test]
fn renamed_entries_stay_in_their_directory() {
    assert_eq!(rename_target("/d/old.txt", "new.txt"), Ok("/d/new.txt".to_string()));
    assert_eq!(rename_target("old.txt", "new.txt"), Ok("new.txt".to_string()));
    assert_eq!(rename_target("/", "new.txt"), Err(PlanError::NoParent));
    assert_eq!(creation_target("/d", "sub"), "/d/sub");
}

#[test]
fn deletion_goes_to_the_trash_only_when_asked() {
    assert_eq!(deletion_method(true, true), DeletionMethod::MoveToTrash);
    assert_eq!(deletion_method(true, false), DeletionMethod::MoveToTrash);
    assert_eq!(deletion_method(false, true), DeletionMethod::RemoveTree);
    assert_eq!(deletion_method(false, false), DeletionMethod::RemoveFile);
}

#[test]
fn icon_colour_and_description_go_by_the_extension_given() {
    assert_eq!(icon_for_extension("png"), "🖼");
    assert_eq!(icon_for_extension("PNG"), "📄");
    assert_eq!(icon_for_extension("rs"), "🦀");
    assert_eq!(icon_for_extension(""), "📄");
    assert_eq!(color_for_extension("zip"), (255, 140, 0));
    assert_eq!(color_for_extension("ZIP"), (169, 169, 169));
    assert_eq!(describe_extension("PDF"), "PDF Document");
    assert_eq!(describe_extension("pdf"), "pdf File");
    assert_eq!(describe_extension(""), " File");
}

#[test]
fn unique_name_takes_the_least_free_number() {
    let taken: Vec<String> = vec![
        "/d/a.txt".to_string(),
        "/d/a (1).txt".to_string(),
        "/d/a (2).txt".to_string(),
        "/d/a (4).txt".to_string(),
    ];
    assert_eq!(ensure_unique_filename("/d/a.txt", &taken), Some("/d/a (3).txt".to_string()));
    let crowded: Vec<String> = vec!["x".to_string(), "x (1)".to_string(), "x (2)".to_string()];
    assert_eq!(ensure_unique_filename("x", &crowded), Some("x (3)".to_string()));
}
