use chex_explorer::file_item::Timestamp;
use chex_explorer::file_manager::IoFault;
use chex_explorer::walk::{keep_readable, settle_walk};
use chex_explorer::pattern::Pattern;
use chex_explorer::text::{byte_offset_in_chars, text_contains};
use chex_explorer::search::{
    excerpt_around, is_text_file, name_test, search_in_file_content, Candidate, EntryStat, FileSearcher, SearchError,
    SearchQuery,
};

fn file(path: &str, size: u64, modified: i64) -> Candidate {
    Candidate {
        path: path.to_string(),
        stat: Some(EntryStat { is_file: true, size, modified: Timestamp { secs: modified, nanos: 0 } }),
        content: None,
    }
}

fn dir(path: &str) -> Candidate {
    Candidate {
        path: path.to_string(),
        stat: Some(EntryStat { is_file: false, size: 4096, modified: Timestamp { secs: 0, nanos: 0 } }),
        content: None,
    }
}

fn query(pattern: &str) -> SearchQuery {
    let mut q = SearchQuery::default();
    q.pattern = pattern.to_string();
    q
}

fn found(q: SearchQuery, entries: Vec<Candidate>) -> Vec<String> {
    let mut searcher = FileSearcher::new(q);
    let results = searcher.search(Ok(entries)).unwrap();
    assert_eq!(results.len(), searcher.get_results().len());
    results.into_iter().map(|r| r.file_name).collect()
}

#[test]
fn default_query_matches_everything() {
    let q = SearchQuery::default();
    assert_eq!(q.pattern, "");
    assert!(!q.is_regex && !q.case_sensitive && !q.search_in_content);
    assert!(q.file_types.is_empty());
    assert_eq!(found(q, vec![dir("/t"), file("/t/a.txt", 1, 1)]), vec!["t", "a.txt"]);
}

#[test]
fn pattern_and_extension_filter_select_the_reports() {
    let mut q = query("report");
    q.file_types = vec!["pdf".to_string()];
    let tree = vec![
        dir("/root"),
        file("/root/report.pdf", 10, 1),
        file("/root/report.txt", 10, 1),
        file("/root/old_report.pdf", 10, 1),
    ];
    assert_eq!(found(q, tree), vec!["report.pdf", "old_report.pdf"]);
}

#[test]
fn results_carry_path_size_and_time() {
    let mut searcher = FileSearcher::new(query("notes"));
    let results = searcher.search(Ok(vec![file("/t/notes.md", 77, 1234)])).unwrap();
    assert_eq!(results.len(), 1);
    assert_eq!(results[0].path, "/t/notes.md");
    assert_eq!(results[0].file_name, "notes.md");
    assert_eq!(results[0].size, 77);
    assert_eq!(results[0].modified, Timestamp { secs: 1234, nanos: 0 });
    assert_eq!(results[0].match_context, None);
    assert_eq!(searcher.get_results()[0].path, "/t/notes.md");
}

#[test]
fn plain_pattern_ignores_case_unless_asked() {
    let tree = || vec![file("/t/README.md", 1, 1), file("/t/readme.txt", 1, 1)];
    assert_eq!(found(query("ReadMe"), tree()), vec!["README.md", "readme.txt"]);
    let mut q = query("README");
    q.case_sensitive = true;
    assert_eq!(found(q, tree()), vec!["README.md"]);
}

#[test]
fn regex_pattern_matches_names() {
    let tree = || vec![file("/t/img001.png", 1, 1), file("/t/IMG002.png", 1, 1), file("/t/doc.png", 1, 1)];
    let mut q = query(r"^img\d+");
    q.is_regex = true;
    assert_eq!(found(q, tree()), vec!["img001.png", "IMG002.png"]);
    let mut q = query(r"^img\d+");
    q.is_regex = true;
    q.case_sensitive = true;
    assert_eq!(found(q, tree()), vec!["img001.png"]);
}

#[test]
fn malformed_regex_is_an_invalid_pattern() {
    let mut q = query("(unclosed");
    q.is_regex = true;
    let mut searcher = FileSearcher::new(q);
    assert_eq!(searcher.search(Ok(vec![file("/t/a", 1, 1)])).unwrap_err(), SearchError::InvalidPattern);
    assert!(searcher.get_results().is_empty());
    assert_eq!(searcher.search(Err(IoFault::Other)).unwrap_err(), SearchError::InvalidPattern);
}

#[test]
fn malformed_pattern_is_fine_when_not_a_regex() {
    assert_eq!(found(query("(unclosed"), vec![file("/t/x(unclosed).txt", 1, 1)]), vec!["x(unclosed).txt"]);
}

#[test]
fn walk_that_could_not_start_fails_the_search() {
    let mut searcher = FileSearcher::new(query("a"));
    assert_eq!(searcher.search(Err(IoFault::Other)).unwrap_err(), SearchError::IoError);
    assert_eq!(
        searcher.search(Err(IoFault::PermissionDenied)).unwrap_err(),
        SearchError::PermissionDenied
    );
}

#[test]
fn empty_extension_in_filter_matches_extensionless_entries() {
    let mut q = query("");
    q.file_types = vec!["".to_string()];
    let tree = vec![dir("/t"), file("/t/Makefile", 1, 1), file("/t/a.txt", 1, 1)];
    assert_eq!(found(q, tree), vec!["t", "Makefile"]);
}

#[test]
fn extension_filter_compares_lowercase_extensions() {
    let mut q = query("");
    q.file_types = vec!["txt".to_string(), "md".to_string()];
    let tree = vec![dir("/t"), file("/t/A.TXT", 1, 1), file("/t/b.md", 1, 1), file("/t/c.rs", 1, 1)];
    assert_eq!(found(q, tree), vec!["A.TXT", "b.md"]);
}

#[test]
fn size_bounds_are_inclusive_and_apply_to_files_only() {
    let mut q = query("");
    q.size_min = Some(10);
    q.size_max = Some(20);
    let tree = vec![
        dir("/t"),
        file("/t/nine", 9, 1),
        file("/t/ten", 10, 1),
        file("/t/twenty", 20, 1),
        file("/t/twentyone", 21, 1),
    ];
    assert_eq!(found(q, tree), vec!["t", "ten", "twenty"]);
}

#[test]
fn time_bounds_are_inclusive() {
    let mut q = query("");
    q.modified_after = Some(Timestamp { secs: 100, nanos: 0 });
    q.modified_before = Some(Timestamp { secs: 200, nanos: 0 });
    let tree = vec![
        file("/t/early", 1, 99),
        file("/t/first", 1, 100),
        file("/t/last", 1, 200),
        file("/t/late", 1, 201),
    ];
    assert_eq!(found(q, tree), vec!["first", "last"]);
}

#[test]
fn entries_that_could_not_be_examined_are_left_out() {
    let broken = Candidate { path: "/t/broken".to_string(), stat: None, content: None };
    assert_eq!(found(query(""), vec![broken, file("/t/fine", 1, 1)]), vec!["fine"]);
}

#[test]
fn content_is_wanted_for_text_files_only() {
    let mut q = query("x");
    q.search_in_content = true;
    let searcher = FileSearcher::new(q);
    assert!(searcher.wants_content("/t/a.TXT", true));
    assert!(searcher.wants_content("/t/a.rs", true));
    assert!(!searcher.wants_content("/t/a.rs", false));
    assert!(!searcher.wants_content("/t/a.png", true));
    assert!(!searcher.wants_content("/t/Makefile", true));
    let plain = FileSearcher::new(query("x"));
    assert!(!plain.wants_content("/t/a.txt", true));
    assert!(is_text_file("toml"));
    assert!(is_text_file("cmd"));
    assert!(!is_text_file("exe"));
}

#[test]
fn excerpt_shows_fifty_characters_around_the_first_match() {
    let q = query("needle");
    let before = "a".repeat(80);
    let after = "b".repeat(80);
    let content = format!("{}needle{}needle", before, after);
    let shown = search_in_file_content(&q, &content).unwrap();
    assert_eq!(shown, format!("{}needle{}", "a".repeat(50), "b".repeat(44)));
}

#[test]
fn excerpt_is_cut_off_at_the_ends_of_the_text() {
    let q = query("Needle");
    assert_eq!(search_in_file_content(&q, "a needle!"), Some("a needle!".to_string()));
    assert_eq!(search_in_file_content(&q, "nothing here"), None);
    let mut exact = query("Needle");
    exact.case_sensitive = true;
    assert_eq!(search_in_file_content(&exact, "a needle!"), None);
    assert_eq!(search_in_file_content(&exact, "Needle"), Some("Needle".to_string()));
}

#[test]
fn excerpt_counts_characters_not_bytes() {
    let q = query("x");
    let content = format!("{}x{}", "é".repeat(60), "ü".repeat(60));
    let shown = search_in_file_content(&q, &content).unwrap();
    assert_eq!(shown, format!("{}x{}", "é".repeat(50), "ü".repeat(49)));
}

#[test]
fn content_search_attaches_excerpts_to_results() {
    let mut q = query("main");
    q.search_in_content = true;
    let mut with_text = file("/t/main.rs", 1, 1);
    with_text.content = Some("fn main() {}".to_string());
    let mut binary = file("/t/main.png", 1, 1);
    binary.content = Some("main".to_string());
    let unread = file("/t/main.py", 1, 1);
    let mut no_match = file("/t/main.txt", 1, 1);
    no_match.content = Some("nothing".to_string());
    let mut searcher = FileSearcher::new(q);
    let results = searcher.search(Ok(vec![with_text, binary, unread, no_match])).unwrap();
    let contexts: Vec<Option<String>> = results.into_iter().map(|r| r.match_context).collect();
    assert_eq!(contexts, vec![Some("fn main() {}".to_string()), None, None, None]);
}

#[test]
fn regex_content_search_shows_the_first_match() {
    let mut q = query(r"ma[a-z]n");
    q.is_regex = true;
    q.search_in_content = true;
    let mut hit = file("/t/main.rs", 1, 1);
    hit.content = Some(format!("{}fn MAIN() {{}} main", "-".repeat(60)));
    let mut miss = file("/t/moon.rs", 1, 1);
    miss.content = Some("fn main() {}".to_string());
    let mut none = file("/t/mainly.txt", 1, 1);
    none.content = Some("nothing to see".to_string());
    let mut searcher = FileSearcher::new(q);
    let results = searcher.search(Ok(vec![hit, miss, none])).unwrap();
    let names: Vec<&str> = results.iter().map(|r| r.file_name.as_str()).collect();
    assert_eq!(names, vec!["main.rs", "mainly.txt"]);
    assert_eq!(
        results[0].match_context,
        Some(format!("{}fn MAIN() {{}} main", "-".repeat(47)))
    );
    assert_eq!(results[1].match_context, None);
}

#[test]
fn excerpt_window_is_placed_by_the_position_given() {
    let text = "0123456789".repeat(20);
    assert_eq!(excerpt_around(&text, 0), text[..50].to_string());
    assert_eq!(excerpt_around(&text, 100), text[50..150].to_string());
    assert_eq!(excerpt_around(&text, 190), text[140..].to_string());
    assert_eq!(excerpt_around(&text, 500), "");
    assert_eq!(excerpt_around("", 0), "");
}

#[test]
fn a_new_search_replaces_the_old_results() {
    let mut searcher = FileSearcher::new(query("a"));
    assert_eq!(searcher.search(Ok(vec![file("/t/a1", 1, 1), file("/t/a2", 1, 1)])).unwrap().len(), 2);
    assert_eq!(searcher.search(Ok(vec![file("/t/b", 1, 1)])).unwrap().len(), 0);
    assert!(searcher.get_results().is_empty());
}

#[test]
fn only_a_failure_at_the_root_fails_the_walk() {
    let walk = vec![Ok(1), Err(IoFault::PermissionDenied), Ok(2), Err(IoFault::Other), Ok(3)];
    assert_eq!(settle_walk(walk), Ok(vec![1, 2, 3]));
    let failed_root = vec![Err(IoFault::PermissionDenied), Ok(2)];
    assert_eq!(settle_walk(failed_root), Err(IoFault::PermissionDenied));
    assert_eq!(settle_walk(Vec::<Result<u8, IoFault>>::new()), Ok(Vec::new()));
}

#[test]
fn unreadable_entries_do_not_fail_a_listing() {
    let raw = vec![Err(IoFault::Other), Ok("a"), Ok("b"), Err(IoFault::PermissionDenied), Ok("c")];
    assert_eq!(keep_readable(raw), vec!["a", "b", "c"]);
    assert_eq!(keep_readable(Vec::<Result<u8, IoFault>>::new()), Vec::<u8>::new());
}

#[test]
fn patterns_are_compiled_once_and_asked_many_times() {
    assert!(Pattern::compile("(open").is_none());
    let p = Pattern::compile(r"b[aeiou]t").unwrap();
    assert!(p.is_match("a bat"));
    assert!(!p.is_match("a BAT"));
    assert_eq!(p.find_start("a bat and a bit"), Some(2));
    assert_eq!(p.find_start("nothing"), None);
    let folded = Pattern::compile(r"(?i)b[aeiou]t").unwrap();
    assert!(folded.is_match("a BAT"));
}

#[test]
fn match_positions_count_characters() {
    let p = Pattern::compile("x").unwrap();
    assert_eq!(p.find_start("éééx"), Some(3));
    assert_eq!(p.find_start("日本語x"), Some(3));
    assert_eq!(p.find_start("😀😀x"), Some(2));
    assert_eq!(byte_offset_in_chars("aé日😀z", 0), 0);
    assert_eq!(byte_offset_in_chars("aé日😀z", 1), 1);
    assert_eq!(byte_offset_in_chars("aé日😀z", 3), 2);
    assert_eq!(byte_offset_in_chars("aé日😀z", 6), 3);
    assert_eq!(byte_offset_in_chars("aé日😀z", 10), 4);
    assert_eq!(byte_offset_in_chars("aé日😀z", 11), 5);
    assert_eq!(byte_offset_in_chars("aé日😀z", 99), 5);
}

#[test]
fn regex_excerpt_is_placed_by_characters() {
    let mut q = query("needle");
    q.is_regex = true;
    q.search_in_content = true;
    let mut hit = file("/t/needle.txt", 1, 1);
    hit.content = Some(format!("{}needle{}", "é".repeat(70), "ü".repeat(70)));
    let mut searcher = FileSearcher::new(q);
    let results = searcher.search(Ok(vec![hit])).unwrap();
    assert_eq!(
        results[0].match_context,
        Some(format!("{}needle{}", "é".repeat(50), "ü".repeat(44)))
    );
}

#[test]
fn name_test_goes_by_the_texts_and_the_verdict_given() {
    let plain = query("Rep");
    assert!(name_test(&plain, "REPORT", "report", "rep", None));
    assert!(!name_test(&plain, "REPORT", "summary", "rep", None));
    assert!(!name_test(&plain, "REPORT", "report", "rep ", Some(true)));
    let mut exact = query("Rep");
    exact.case_sensitive = true;
    assert!(name_test(&exact, "Report", "", "", None));
    assert!(!name_test(&exact, "report", "rep", "rep", None));
    let mut re = query("anything");
    re.is_regex = true;
    assert!(name_test(&re, "x", "", "", Some(true)));
    assert!(!name_test(&re, "anything", "anything", "anything", Some(false)));
    assert!(!name_test(&re, "anything", "anything", "anything", None));
    assert!(text_contains("haystack", "st"));
    assert!(text_contains("haystack", ""));
    assert!(!text_contains("hay", "haystack"));
}
