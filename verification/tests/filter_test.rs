use ised::cache::{ContentCache, ReadError};
use ised::filter::FilterEngine;
use ised::glob::{parse_query, GlobFilter};
use ised::pattern::{compile, PatternError, RegexCache};

fn index(paths: &[&str]) -> Vec<String> {
    paths.iter().map(|p| p.to_string()).collect()
}

#[test]
fn exclusion_wins_over_inclusion() {
    let filter = GlobFilter::new("*.rs,!mod.rs");
    assert!(!filter.is_match("mod.rs"));
    assert!(filter.is_match("src/lib.rs"));
    assert!(filter.is_match("lib.rs"));
    assert!(!filter.is_match("src/lib.txt"));
}

#[test]
fn a_glob_is_held_against_the_whole_path() {
    // `mod.rs` names the path `mod.rs` and no other.
    let plain = GlobFilter::new("*.rs,!mod.rs");
    assert!(plain.is_match("src/mod.rs"));
    let anywhere = GlobFilter::new("*.rs,!**/mod.rs");
    assert!(!anywhere.is_match("src/mod.rs"));
    assert!(!anywhere.is_match("mod.rs"));
    assert!(anywhere.is_match("src/lib.rs"));
}

#[test]
fn a_query_without_include_clause_admits_what_it_does_not_exclude() {
    let filter = GlobFilter::new("!*.txt");
    assert!(filter.is_match("a.rs"));
    assert!(!filter.is_match("a.txt"));
    let nothing = GlobFilter::new(" , ,");
    assert!(nothing.is_match("whatever"));
}

#[test]
fn malformed_clauses_are_passed_over() {
    let filter = GlobFilter::new("[,*.rs");
    assert!(filter.is_match("a.rs"));
    assert!(!filter.is_match("a.txt"));
    // A malformed include clause is still an include clause: nothing passes.
    let only_bad = GlobFilter::new("[");
    assert!(!only_bad.is_match("a.rs"));
    let bad_exclusion = GlobFilter::new("*.rs,![");
    assert!(bad_exclusion.is_match("a.rs"));
}

#[test]
fn query_is_split_and_trimmed() {
    let parsed = parse_query(" *.rs , !target/** ,, ! x ,!,README.md ");
    assert_eq!(parsed.includes, vec!["*.rs".to_string(), "README.md".to_string()]);
    assert_eq!(
        parsed.excludes,
        vec!["target/**".to_string(), " x".to_string(), "".to_string()]
    );
    let empty = parse_query("");
    assert!(empty.includes.is_empty() && empty.excludes.is_empty());
    let unicode = parse_query("\u{3000}été/*\u{a0},!\u{2003}");
    assert_eq!(unicode.includes, vec!["été/*".to_string()]);
    assert_eq!(unicode.excludes, vec!["".to_string()]);
}

#[test]
fn blank_queries_give_the_whole_index() {
    let mut engine = FilterEngine::new();
    let files = index(&["b.rs", "a.txt", "c.rs"]);
    assert_eq!(engine.filter(&files, "", ""), files);
    assert_eq!(engine.filter(&files, "  ", " \t"), files);
    assert!(engine.unread(&files, " ", "").is_empty());
}

#[test]
fn glob_query_keeps_the_order_of_the_index() {
    let mut engine = FilterEngine::new();
    let files = index(&["z.rs", "a.txt", "m.rs", "b.rs"]);
    assert_eq!(engine.filter(&files, "*.rs", ""), index(&["z.rs", "m.rs", "b.rs"]));
    assert_eq!(engine.filter(&files, "*.rs,!m.rs", ""), index(&["z.rs", "b.rs"]));
}

#[test]
fn content_query_goes_by_the_cached_text() {
    let mut engine = FilterEngine::new();
    let files = index(&["a.rs", "b.rs", "c.txt"]);
    assert_eq!(engine.unread(&files, "*.rs", "fn main"), index(&["a.rs", "b.rs"]));
    assert_eq!(
        engine.supply("a.rs", Ok("fn main() {}".to_string())),
        Ok("fn main() {}".to_string())
    );
    assert_eq!(engine.supply("b.rs", Err(ReadError::NotFound)), Err(ReadError::NotFound));
    // b.rs could not be read: it does not match.
    assert_eq!(engine.filter(&files, "*.rs", "fn main"), index(&["a.rs"]));
}

#[test]
fn content_query_alone_asks_for_every_file() {
    let mut engine = FilterEngine::new();
    let files = index(&["a.rs", "c.txt"]);
    assert_eq!(engine.unread(&files, "", "x+"), files);
    engine.supply("a.rs", Ok("xx".to_string())).unwrap();
    engine.supply("c.txt", Ok("yy".to_string())).unwrap();
    assert!(engine.unread(&files, "", "x+").is_empty());
    assert_eq!(engine.filter(&files, "", "x+"), index(&["a.rs"]));
}

#[test]
fn malformed_content_query_matches_nothing() {
    let mut engine = FilterEngine::new();
    let files = index(&["a.rs", "b.rs"]);
    assert!(engine.unread(&files, "*.rs", "(").is_empty());
    assert!(engine.filter(&files, "*.rs", "(").is_empty());
}

#[test]
fn second_call_returns_the_memo() {
    let mut engine = FilterEngine::new();
    let files = index(&["a.rs", "b.rs"]);
    engine.supply("a.rs", Ok("needle".to_string())).unwrap();
    engine.supply("b.rs", Ok("hay".to_string())).unwrap();
    let first = engine.filter(&files, "*.rs", "needle");
    assert_eq!(first, index(&["a.rs"]));
    // The memo answers: neither a changed cache nor another index is looked at.
    engine.supply("b.rs", Ok("needle".to_string())).unwrap();
    let other = index(&["b.rs"]);
    assert!(engine.unread(&other, "*.rs", "needle").is_empty());
    assert_eq!(engine.filter(&other, "*.rs", "needle"), first);
    // Another query is a miss.
    assert_eq!(engine.filter(&files, "*.rs", "hay"), Vec::<String>::new());
    assert_eq!(engine.filter(&files, "*.rs", "needle"), index(&["a.rs", "b.rs"]));
}

#[test]
fn invalidated_file_is_read_anew() {
    let mut engine = FilterEngine::new();
    let files = index(&["a.rs", "b.rs"]);
    engine.supply("a.rs", Ok("old".to_string())).unwrap();
    engine.supply("b.rs", Ok("old".to_string())).unwrap();
    assert_eq!(engine.filter(&files, "", "new"), Vec::<String>::new());
    engine.invalidate("a.rs");
    assert_eq!(engine.content("a.rs"), None);
    assert_eq!(engine.content("b.rs"), Some(&"old".to_string()));
    assert_eq!(engine.unread(&files, "", "new"), index(&["a.rs"]));
    engine.supply("a.rs", Ok("brand new".to_string())).unwrap();
    assert_eq!(engine.filter(&files, "", "new"), index(&["a.rs"]));
    // Invalidating twice is invalidating once.
    engine.invalidate("a.rs");
    engine.invalidate("a.rs");
    assert_eq!(engine.content("a.rs"), None);
    engine.invalidate_all();
    assert_eq!(engine.content("b.rs"), Some(&"old".to_string()));
}

#[test]
fn content_cache_holds_the_last_text() {
    let mut cache = ContentCache::new();
    assert!(cache.get("a").is_none());
    cache.insert("a".to_string(), "1".to_string());
    cache.insert("b".to_string(), "2".to_string());
    cache.insert("a".to_string(), "3".to_string());
    assert_eq!(cache.get("a"), Some(&"3".to_string()));
    assert_eq!(cache.get("b"), Some(&"2".to_string()));
    assert!(cache.contains("b") && !cache.contains("c"));
    cache.invalidate("a");
    assert!(cache.get("a").is_none());
    assert_eq!(cache.get("b"), Some(&"2".to_string()));
    assert_eq!(cache.fill("c", Err(ReadError::PermissionDenied)), Err(ReadError::PermissionDenied));
    assert!(!cache.contains("c"));
    assert_eq!(cache.fill("c", Ok("4".to_string())), Ok("4".to_string()));
    assert_eq!(cache.get("c"), Some(&"4".to_string()));
    cache.invalidate_all();
    assert!(!cache.contains("b") && !cache.contains("c"));
}

#[test]
fn regex_cache_compiles_each_pattern_once() {
    let mut cache = RegexCache::new();
    let first = cache.compile(r"a+b").unwrap();
    let again = cache.compile(r"a+b").unwrap();
    assert_eq!(first.as_str(), r"a+b");
    assert_eq!(again.as_str(), r"a+b");
    let other = cache.compile(r"c").unwrap();
    assert_eq!(other.as_str(), "c");
    assert!(first.is_match("xaab") && !other.is_match("xaab"));
    assert!(matches!(cache.compile("("), Err(PatternError::Syntax(_))));
    assert!(matches!(compile(r"\w{1000}{1000}"), Err(PatternError::TooBig(_))));
    assert!(compile("ok").is_ok());
}
