use context_rag::config::IndexConfig;
use context_rag::filter::{should_include, should_include_with_extension};

fn config(includes: &[&str], exclude: &[&str]) -> IndexConfig {
    IndexConfig {
        includes: includes.iter().map(|s| s.to_string()).collect(),
        exclude: exclude.iter().map(|s| s.to_string()).collect(),
        storage_path: "./idx".to_string(),
    }
}

#[test]
fn exclusion_wins_over_inclusion() {
    let c = config(&["*.md", "docs"], &["node_modules"]);
    assert!(!should_include("./node_modules/pkg/readme.md", &c));
    assert!(!should_include_with_extension("./node_modules/docs/x.md", Some("md"), &c));
    assert!(should_include("./docs/readme.md", &c));
}

#[test]
fn empty_include_list_rejects_everything() {
    let c = config(&[], &[]);
    assert!(!should_include("./a.md", &c));
    assert!(!should_include("", &c));
    assert!(!should_include_with_extension("anything", Some("md"), &c));
}

#[test]
fn empty_exclude_list_rejects_nothing() {
    let c = config(&["a"], &[]);
    assert!(should_include("./a.md", &c));
    assert!(!should_include("./b.txt", &c));
}

#[test]
fn extension_pattern_needs_the_exact_extension() {
    let c = config(&["*.md"], &[]);
    assert!(should_include("./a.md", &c));
    assert!(should_include("./dir.d/notes.md", &c));
    assert!(!should_include("./b.txt", &c));
    assert!(!should_include("./a.mdx", &c));
    assert!(!should_include("./md", &c));
    assert!(!should_include("./.md", &c));
    assert!(!should_include("./a.MD", &c));
    assert!(!should_include("./a.md/b", &c));
}

#[test]
fn extension_is_taken_as_given() {
    let c = config(&["*.md"], &[]);
    assert!(should_include_with_extension("whatever", Some("md"), &c));
    assert!(!should_include_with_extension("a.md", None, &c));
    assert!(!should_include_with_extension("a.md", Some("a.md"), &c));
    assert!(!should_include_with_extension("a.md", Some("m"), &c));
    assert!(!should_include_with_extension("a.md", Some("mdx"), &c));
}

#[test]
fn bare_extension_pattern_matches_the_empty_extension() {
    let c = config(&["*."], &[]);
    assert!(should_include_with_extension("name.", Some(""), &c));
    assert!(!should_include_with_extension("name", None, &c));
    assert!(should_include("./name.", &c));
}

#[test]
fn directory_pattern_is_a_prefix() {
    let c = config(&["./src/"], &[]);
    assert!(should_include("./src/lib.rs", &c));
    assert!(should_include("./src/", &c));
    assert!(!should_include("./lib/src/lib.rs", &c));
    assert!(!should_include("./src", &c));
    let bare = config(&["src/"], &[]);
    assert!(!should_include("./src/lib.rs", &bare));
    assert!(should_include("src/lib.rs", &bare));
}

#[test]
fn other_patterns_match_anywhere() {
    let c = config(&["read"], &[]);
    assert!(should_include("./readme.txt", &c));
    assert!(should_include("./thread/x", &c));
    assert!(should_include("./x/bread", &c));
    assert!(!should_include("./rea/d", &c));
    assert!(!should_include("rea", &c));
}

#[test]
fn empty_patterns_match_every_path() {
    assert!(should_include("./a", &config(&[""], &[])));
    assert!(should_include("", &config(&[""], &[])));
    assert!(!should_include("./a", &config(&["a"], &[""])));
}

#[test]
fn later_include_patterns_are_tried() {
    let c = config(&["zzz/", "*.rs", "notes"], &["target"]);
    assert!(should_include("./src/main.rs", &c));
    assert!(should_include("./my notes.txt", &c));
    assert!(!should_include("./target/main.rs", &c));
    assert!(!should_include("./src/main.c", &c));
}

#[test]
fn patterns_match_characters_beyond_ascii() {
    let c = config(&["\u{e9}t\u{e9}"], &["\u{4e16}"]);
    assert!(should_include("./un \u{e9}t\u{e9}.txt", &c));
    assert!(!should_include("./\u{4e16}/\u{e9}t\u{e9}", &c));
    assert!(!should_include("./ete", &c));
}

#[test]
fn plain_patterns_agree_with_substring_search() {
    let texts = ["", "a", "ab", "abc", "aab", "abab", "./src/main.rs", "\u{e9}\u{e8}\u{e9}"];
    let patterns = ["", "a", "b", "ab", "ba", "abc", "abcd", "bab", "src", "main.rs", "\u{e8}\u{e9}"];
    for text in texts {
        for pattern in patterns {
            let c = config(&[pattern], &[]);
            assert_eq!(should_include(text, &c), text.contains(pattern), "{:?} in {:?}", pattern, text);
            let x = config(&[""], &[pattern]);
            assert_eq!(should_include(text, &x), !text.contains(pattern), "{:?} in {:?}", pattern, text);
        }
    }
}

#[test]
fn directory_patterns_agree_with_prefix_search() {
    let texts = ["", "/", "a/", "a/b", "ba/", "./a/b", "a"];
    let patterns = ["/", "a/", "./a/", "b/"];
    for text in texts {
        for pattern in patterns {
            let c = config(&[pattern], &[]);
            assert_eq!(should_include(text, &c), text.starts_with(pattern), "{:?} {:?}", pattern, text);
        }
    }
}
