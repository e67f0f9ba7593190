use imake::host::{Answer, Request};
use imake::wildcard::{answer, names_of, paths_answer, wildcard};

fn text(s: &str) -> Vec<char> {
    s.chars().collect()
}

fn found(pattern: &str) -> Vec<String> {
    match wildcard(&text(pattern)) {
        Answer::Paths { paths } => paths.iter().map(|p| p.iter().collect()).collect(),
        _ => panic!("expected paths"),
    }
}

#[test]
fn wildcard_finds_the_files_that_match() {
    assert_eq!(found("/dev/nul?"), vec!["/dev/null"]);
    assert_eq!(
        found("/proc/self/stat*"),
        vec!["/proc/self/stat", "/proc/self/statm", "/proc/self/status"]
    );
    assert!(found("/proc/self/STAT*").is_empty());
    assert!(found("/dev*null").is_empty());
    assert!(found("/proc/self/Stat*").is_empty());
    assert!(found("/dev/null/*").is_empty());
}

#[test]
fn a_pattern_that_is_not_one_is_refused() {
    assert!(matches!(wildcard(&text("a[")), Answer::Refused));
    assert!(matches!(wildcard(&text("a/**b")), Answer::Refused));
}

fn kept(pattern: &str, found: &[Option<&str>]) -> Vec<String> {
    let found: Vec<Option<String>> = found.iter().map(|p| p.map(|s| s.to_string())).collect();
    match paths_answer(&text(pattern), &found) {
        Answer::Paths { paths } => paths.iter().map(|p| p.iter().collect()).collect(),
        _ => panic!("expected paths"),
    }
}

#[test]
fn paths_that_could_not_be_read_are_left_out() {
    assert_eq!(kept("*", &[Some("a"), None, Some("b c")]), vec!["a", "b c"]);
}

#[test]
fn a_leading_dot_hides_a_name_from_wildcards() {
    assert_eq!(kept("*", &[Some(".git"), Some("a.c"), Some("..")]), vec!["a.c"]);
    assert_eq!(kept("*/x", &[Some(".git/x"), Some("src/x")]), vec!["src/x"]);
    assert_eq!(kept("src/*", &[Some("src/.x"), Some("src/x.y")]), vec!["src/x.y"]);
    assert_eq!(kept(".git/*", &[Some(".git/config"), Some(".git/.lock")]), vec![".git/config"]);
    assert_eq!(kept("../*.c", &[Some("../a.c")]), vec!["../a.c"]);
    assert_eq!(kept(".*", &[Some(".a"), Some("."), Some("..")]), Vec::<String>::new());
    assert_eq!(kept("/tmp/.x*", &[Some("/tmp/.x1")]), Vec::<String>::new());
    assert_eq!(kept("/tmp/.x", &[Some("/tmp/.x")]), vec!["/tmp/.x"]);
}

#[test]
fn names_stand_between_slashes() {
    let names = |s: &str| -> Vec<String> {
        names_of(&text(s)).iter().map(|n| n.iter().collect()).collect()
    };
    assert_eq!(names("/a//b.c/"), vec!["", "a", "", "b.c", ""]);
    assert_eq!(names(""), vec![""]);
    assert_eq!(names("x"), vec!["x"]);
}

#[test]
fn the_library_answers_wildcards_only() {
    assert!(answer(&Request::Wildcard { pattern: text("/nonexistent-dir-for-imake/*") }).is_some());
    assert!(answer(&Request::Stat { path: text("a") }).is_none());
    assert!(answer(&Request::Read { path: text("a") }).is_none());
    assert!(answer(&Request::Canonical { path: text("a") }).is_none());
}
