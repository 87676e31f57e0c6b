use loc_blame::analysis::{analyze_project, count_blame_lines, counted_line_author, map_author};
use loc_blame::blame::parse_blame_line;
use loc_blame::config::project::ProjectFileConfig;
use loc_blame::config::AuthorAlias;
use loc_blame::counts::CountMap;
use loc_blame::git::GitRepository;
use loc_blame::report::rank_authors;
use loc_blame::select::{is_blacklisted, select_files, Pattern};
use loc_blame::text::trim_string;

fn line(hash: &str, author: &str, n: u32, content: &str) -> String {
    format!("{} src/a.rs ({} 2023-05-01 12:34:56 +0200 {:>3}) {}", hash, author, n, content)
}

fn lines(v: &[String]) -> Vec<String> {
    v.to_vec()
}

fn alias(author: &str, map_to: &str) -> AuthorAlias {
    AuthorAlias { author: author.to_string(), map_to: map_to.to_string() }
}

fn count(m: &CountMap, author: &str) -> u128 {
    m.get(&author.to_string())
}

fn config(patterns: &[&str]) -> ProjectFileConfig {
    let v: Vec<String> = patterns.iter().map(|p| p.to_string()).collect();
    match ProjectFileConfig::from_patterns(&v) {
        Ok(c) => c,
        Err(_) => panic!("pattern does not compile"),
    }
}

#[test]
fn parses_author_and_content() {
    let l = "^1a2b3c4 src/main.rs (Alice Smith 2023-05-01 12:34:56 +0200  1) fn main() {";
    let (a, c) = parse_blame_line(l).unwrap();
    assert_eq!(a, "Alice Smith");
    assert_eq!(c, "fn main() {");
}

#[test]
fn content_keeps_its_whitespace() {
    let l = "1a2b3c4d f.rs (Bob 2021-12-31 23:59:59 -0500 120)     let x = (1, 2);  ";
    let (a, c) = parse_blame_line(l).unwrap();
    assert_eq!(a, "Bob");
    assert_eq!(c, "    let x = (1, 2);  ");
}

#[test]
fn parses_line_without_filename() {
    let l = "1a2b3c4d (Bob 2021-12-31 23:59:59 -0500 7) x";
    let (a, c) = parse_blame_line(l).unwrap();
    assert_eq!(a, "Bob");
    assert_eq!(c, "x");
}

#[test]
fn content_with_lookalike_tail_stays_content() {
    let l = "1a2b3c4d f.rs (Bob 2021-12-31 23:59:59 -0500 7) (X 2020-01-01 00:00:00 +0000 1) y";
    let (a, c) = parse_blame_line(l).unwrap();
    assert_eq!(a, "Bob");
    assert_eq!(c, "(X 2020-01-01 00:00:00 +0000 1) y");
}

#[test]
fn malformed_lines_are_skipped() {
    assert!(parse_blame_line("").is_none());
    assert!(parse_blame_line("not a blame line at all").is_none());
    assert!(parse_blame_line("1a2b3c4d f.rs (Bob 2021-12-31 23:59 -0500 7) x").is_none());
    assert!(parse_blame_line("1a2b3c4d f.rs (Bob 2021-12-31 23:59:59 0500 7) x").is_none());
    assert!(parse_blame_line("1a2b3c4d f.rs ( 2021-12-31 23:59:59 -0500 7) x").is_none());
    assert!(parse_blame_line("zzzzzzzz f.rs (Bob 2021-12-31 23:59:59 -0500 7) x").is_none());
}

#[test]
fn blank_content_is_not_counted() {
    let l = line("1a2b3c4d", "Alice", 1, "   \t");
    let (a, c) = parse_blame_line(&l).unwrap();
    assert_eq!(a, "Alice");
    assert_eq!(c, "   \t");
    assert!(counted_line_author(&l).is_none());
    let m = count_blame_lines(&vec![l.clone(), line("1a2b3c4d", "Alice", 2, "")], &[]);
    assert_eq!(m.len(), 0);
}

#[test]
fn trimmed_author_passes_through_unmapped() {
    let l = line("1a2b3c4d", "  Carol  ", 1, "x = 1");
    assert_eq!(counted_line_author(&l).unwrap(), "Carol");
    let aliases = vec![alias("Bob", "Robert")];
    let m = count_blame_lines(&vec![l], &aliases);
    assert_eq!(m.len(), 1);
    assert_eq!(count(&m, "Carol"), 1);
}

#[test]
fn map_author_takes_first_alias() {
    let aliases = vec![alias("Bob", "Robert"), alias("Bob", "Bobby"), alias("al", "Alice")];
    assert_eq!(map_author("Bob".to_string(), &aliases), "Robert");
    assert_eq!(map_author("al".to_string(), &aliases), "Alice");
    assert_eq!(map_author("bob".to_string(), &aliases), "bob");
    assert_eq!(map_author("Eve".to_string(), &[]), "Eve");
}

#[test]
fn map_author_twice_is_once() {
    let aliases = vec![alias("Bob", "Robert"), alias("al", "Alice")];
    for name in ["Bob", "al", "Robert", "Zed"] {
        let once = map_author(name.to_string(), &aliases);
        let twice = map_author(once.clone(), &aliases);
        assert_eq!(once, twice);
    }
}

#[test]
fn two_files_sum_per_author() {
    let a = lines(&[
        line("1a2b3c4d", "Alice", 1, "a1"),
        line("1a2b3c4d", "Alice", 2, "a2"),
        line("1a2b3c4d", "Alice", 3, ""),
    ]);
    let b = lines(&[line("^a2b3c4d", "Alice", 1, "b1"), line("^a2b3c4d", "Bob", 2, "b2")]);
    let files = vec!["a.txt".to_string(), "b.txt".to_string()];
    assert_eq!(select_files(&files, &config(&[])), files);
    let aliases = vec![alias("Bob", "Robert")];
    let m = analyze_project(&vec![a, b], &aliases);
    assert_eq!(m.len(), 2);
    assert_eq!(count(&m, "Alice"), 3);
    assert_eq!(count(&m, "Robert"), 1);
    assert_eq!(count(&m, "Bob"), 0);
}

#[test]
fn blacklist_excludes_generated() {
    let files = vec!["generated/x.go".to_string(), "src/y.go".to_string()];
    let sel = select_files(&files, &config(&["^generated/"]));
    assert_eq!(sel, vec!["src/y.go".to_string()]);
}

#[test]
fn blacklist_keeps_order_and_any_pattern_excludes() {
    let files: Vec<String> =
        ["c.rs", "b.lock", "a.rs", "vendor/x.rs", "d.md"].iter().map(|s| s.to_string()).collect();
    let sel = select_files(&files, &config(&[r"\.lock$", "^vendor/", r"\.md$"]));
    assert_eq!(sel, vec!["c.rs".to_string(), "a.rs".to_string()]);
    assert_eq!(select_files(&vec![], &config(&["x"])), Vec::<String>::new());
}

#[test]
fn empty_project_gives_empty_mapping() {
    let files: Vec<String> = vec![];
    assert!(select_files(&files, &config(&[])).is_empty());
    let m = analyze_project(&vec![], &[]);
    assert_eq!(m.len(), 0);
    assert!(m.entries().is_empty());
}

#[test]
fn merge_order_does_not_matter() {
    let x = count_blame_lines(
        &lines(&[line("1a2b3c4d", "Alice", 1, "a"), line("1a2b3c4d", "Bob", 2, "b")]),
        &[],
    );
    let y = count_blame_lines(
        &lines(&[line("1a2b3c4d", "Bob", 1, "c"), line("1a2b3c4d", "Dan", 2, "d")]),
        &[],
    );
    let mut xy = CountMap::new();
    xy.merge(&x);
    xy.merge(&y);
    let mut yx = CountMap::new();
    yx.merge(&y);
    yx.merge(&x);
    for name in ["Alice", "Bob", "Dan", "Eve"] {
        assert_eq!(count(&xy, name), count(&yx, name));
    }
    assert_eq!(count(&xy, "Bob"), 2);
    assert_eq!(xy.len(), 3);
    assert_eq!(yx.len(), 3);
}

#[test]
fn count_map_add_and_get() {
    let mut m = CountMap::new();
    m.add("Ann".to_string(), 5);
    m.add("Ann".to_string(), u128::MAX - 5);
    m.add("Ben".to_string(), 0);
    assert_eq!(count(&m, "Ann"), u128::MAX);
    assert_eq!(count(&m, "Ben"), 0);
    assert_eq!(m.len(), 2);
}

#[test]
fn invalid_pattern_is_reported() {
    let v = vec!["^ok$".to_string(), "(".to_string(), "[".to_string()];
    match ProjectFileConfig::from_patterns(&v) {
        Ok(_) => panic!("expected an error"),
        Err(e) => assert_eq!(e.pattern, "("),
    }
    assert!(Pattern::new("a(b").is_err());
    assert_eq!(Pattern::new("a+b").ok().unwrap().as_str(), "a+b");
}

#[test]
fn pattern_matching_uses_regex() {
    let p = Pattern::new(r"^src/.*\.rs$").ok().unwrap();
    assert!(p.is_match("src/lib.rs"));
    assert!(!p.is_match("tests/lib.rs"));
    assert!(!p.is_match("src/lib.rsx"));
    let ps = vec![p, Pattern::new("^docs/").ok().unwrap()];
    assert!(is_blacklisted(&ps, "docs/a.md"));
    assert!(!is_blacklisted(&ps, "README.md"));
}

#[test]
fn trims_unicode_whitespace() {
    assert_eq!(trim_string("\u{3000} a b\u{a0}\n"), "a b");
    assert_eq!(trim_string("   "), "");
}

#[test]
fn repository_id_is_trimmed() {
    let r = GitRepository::from_root_commit_output(
        std::path::PathBuf::from("/tmp/p"),
        "  0123456789abcdef0123456789abcdef01234567\n",
    );
    assert_eq!(r.id, "0123456789abcdef0123456789abcdef01234567");
    assert_eq!(r.project_dir, std::path::PathBuf::from("/tmp/p"));
}

#[test]
fn authors_ranked_by_count() {
    let mut m = CountMap::new();
    m.add("Ann".to_string(), 2);
    m.add("Ben".to_string(), 7);
    m.add("Cid".to_string(), 2);
    m.add("Dee".to_string(), 9);
    let r = rank_authors(&m);
    let names: Vec<&str> = r.iter().map(|(a, _)| a.as_str()).collect();
    assert_eq!(names, vec!["Dee", "Ben", "Ann", "Cid"]);
    assert_eq!(r.iter().map(|(_, c)| *c).collect::<Vec<u128>>(), vec![9, 7, 2, 2]);
    assert!(rank_authors(&CountMap::new()).is_empty());
}
