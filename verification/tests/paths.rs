use chex_explorer::paths::{extension, extension_in_name, file_stem, stem_in_name};
use std::path::Path;

fn samples() -> Vec<&'static str> {
    vec![
        "",
        "/",
        ".",
        "..",
        "a/..",
        "file",
        "file.txt",
        "/dir/file.txt",
        "/dir.d/file",
        "/dir/.hidden",
        "/dir/.hidden.conf",
        "/dir/archive.tar.gz",
        "/dir/trailing.",
        "/dir/two..dots",
        "/dir/...",
        "/dir/.a.",
        "/dir/sub/",
        "relative/na.me.ext",
        "/dir/ünï.cödé",
        "/dir/.",
    ]
}

#[test]
fn extensions_are_what_stands_behind_the_last_dot() {
    assert_eq!(extension("/dir/file.txt"), Some("txt".to_string()));
    assert_eq!(extension("/dir/archive.tar.gz"), Some("gz".to_string()));
    assert_eq!(extension("/dir/trailing."), Some("".to_string()));
    assert_eq!(extension("/dir/.hidden"), None);
    assert_eq!(extension("/dir/.hidden.conf"), Some("conf".to_string()));
    assert_eq!(extension("/dir.d/file"), None);
    assert_eq!(extension("/"), None);
}

#[test]
fn stems_are_what_stands_before_the_last_dot() {
    assert_eq!(file_stem("/dir/file.txt"), Some("file".to_string()));
    assert_eq!(file_stem("/dir/archive.tar.gz"), Some("archive.tar".to_string()));
    assert_eq!(file_stem("/dir/.hidden"), Some(".hidden".to_string()));
    assert_eq!(file_stem("/dir/file"), Some("file".to_string()));
    assert_eq!(file_stem(".."), None);
}

#[test]
fn extensions_and_stems_agree_with_the_standard_library() {
    for p in samples() {
        let ext = Path::new(p).extension().map(|e| e.to_string_lossy().to_string());
        let stem = Path::new(p).file_stem().map(|e| e.to_string_lossy().to_string());
        assert_eq!(extension(p), ext, "extension of {:?}", p);
        assert_eq!(file_stem(p), stem, "stem of {:?}", p);
    }
}

#[test]
fn names_split_at_their_last_dot() {
    assert_eq!(extension_in_name("report.final.pdf"), Some("pdf".to_string()));
    assert_eq!(stem_in_name("report.final.pdf"), "report.final");
    assert_eq!(extension_in_name(".profile"), None);
    assert_eq!(stem_in_name(".profile"), ".profile");
    assert_eq!(extension_in_name("plain"), None);
    assert_eq!(stem_in_name("plain"), "plain");
    assert_eq!(extension_in_name("dot."), Some("".to_string()));
    assert_eq!(stem_in_name("dot."), "dot");
    assert_eq!(extension_in_name(""), None);
    assert_eq!(stem_in_name(""), "");
}
