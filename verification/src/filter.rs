//! Decides which paths are indexed, from include and exclude patterns.
//!
//! Patterns are matched as plain text. An exclude pattern matches a path that
//! contains it. An include pattern that ends in `/` matches a path that starts
//! with it; one that starts with `*.` matches a path whose extension is the
//! rest of the pattern; any other matches a path that contains it. A pattern
//! may therefore match across path segments.

use vstd::prelude::*;
use crate::config::{IndexConfig, IndexConfigView};
use crate::text::chars_of;

verus! {

/// `pattern` stands in `text` at position `at`.
pub open spec fn occurs_at(text: Seq<char>, pattern: Seq<char>, at: int) -> bool {
    &&& 0 <= at
    &&& at + pattern.len() <= text.len()
    &&& text.subrange(at, at + pattern.len()) == pattern
}

/// `text` starts with `pattern`.
pub open spec fn has_prefix(text: Seq<char>, pattern: Seq<char>) -> bool {
    occurs_at(text, pattern, 0)
}

/// `pattern` stands somewhere in `text`.
pub open spec fn contains_text(text: Seq<char>, pattern: Seq<char>) -> bool {
    exists|at: int| occurs_at(text, pattern, at)
}

/// Whether one include pattern matches a path with the given extension.
pub open spec fn include_matches(
    path: Seq<char>,
    extension: Option<Seq<char>>,
    pattern: Seq<char>,
) -> bool {
    if pattern.len() > 0 && pattern.last() == '/' {
        has_prefix(path, pattern)
    } else if has_prefix(pattern, seq!['*', '.']) {
        extension == Some(pattern.subrange(2, pattern.len() as int))
    } else {
        contains_text(path, pattern)
    }
}

/// Some exclude pattern matches the path.
pub open spec fn is_excluded(path: Seq<char>, patterns: Seq<Seq<char>>) -> bool {
    exists|i: int| 0 <= i < patterns.len() && contains_text(path, #[trigger] patterns[i])
}

/// Some include pattern matches the path.
pub open spec fn is_included(
    path: Seq<char>,
    extension: Option<Seq<char>>,
    patterns: Seq<Seq<char>>,
) -> bool {
    exists|i: int|
        0 <= i < patterns.len() && include_matches(path, extension, #[trigger] patterns[i])
}

/// The filter's decision: a path is indexed when no exclude pattern matches it
/// and some include pattern does.
pub open spec fn accepts(config: IndexConfigView, path: Seq<char>, extension: Option<Seq<char>>) -> bool {
    !is_excluded(path, config.exclude) && is_included(path, extension, config.includes)
}

/// The extension of a path, as `std::path::Path::extension` reads it under the
/// platform's path rules.
pub uninterp spec fn path_extension(path: Seq<char>) -> Option<Seq<char>>;

/// Calls `std::path::Path::extension` on `path`. The contract only names the
/// result: it is the extension that the standard library finds in this text.
#[verifier::external_body]
pub(crate) fn extension_of(path: &str) -> (extension: Option<String>)
    ensures
        extension.deep_view() == path_extension(path@),
{
    match std::path::Path::new(path).extension() {
        Some(e) => Some(e.to_string_lossy().into_owned()),
        None => None,
    }
}

/// Whether `pattern` stands in `text` at position `at`.
fn matches_at(text: &Vec<char>, pattern: &Vec<char>, at: usize) -> (b: bool)
    ensures
        b == occurs_at(text@, pattern@, at as int),
{
    if pattern.len() > text.len() || at > text.len() - pattern.len() {
        return false;
    }
    let mut i: usize = 0;
    while i < pattern.len()
        invariant
            i <= pattern.len(),
            at + pattern.len() <= text.len(),
            forall|k: int| 0 <= k < i ==> text@[at + k] == pattern@[k],
        decreases pattern.len() - i,
    {
        if text[at + i] != pattern[i] {
            assert(text@.subrange(at as int, at + pattern@.len())[i as int] == text@[at + i]);
            return false;
        }
        i += 1;
    }
    assert(text@.subrange(at as int, at + pattern@.len()) =~= pattern@);
    true
}

/// Whether `pattern` stands somewhere in `text`.
fn contains(text: &Vec<char>, pattern: &Vec<char>) -> (b: bool)
    ensures
        b == contains_text(text@, pattern@),
{
    if pattern.len() > text.len() {
        return false;
    }
    let last = text.len() - pattern.len();
    let mut at: usize = 0;
    while at < last
        invariant
            at <= last,
            last == text.len() - pattern.len(),
            forall|k: int| 0 <= k < at ==> !occurs_at(text@, pattern@, k),
        decreases last - at,
    {
        if matches_at(text, pattern, at) {
            return true;
        }
        at += 1;
    }
    matches_at(text, pattern, last)
}

/// Whether the extension is the text of `pattern` after its first two
/// characters.
fn extension_is(extension: Option<&str>, pattern: &Vec<char>) -> (b: bool)
    requires
        pattern.len() >= 2,
    ensures
        b == (extension.deep_view() == Some(pattern@.subrange(2, pattern@.len() as int))),
{
    match extension {
        None => false,
        Some(e) => {
            let found = chars_of(e);
            let wanted = pattern.len() - 2;
            if found.len() != wanted {
                return false;
            }
            let hit = matches_at(pattern, &found, 2);
            assert(pattern@.subrange(2, 2 + found@.len() as int) == pattern@.subrange(
                2,
                pattern@.len() as int,
            ));
            hit
        },
    }
}

/// Whether the include pattern matches the path.
fn include_pattern_matches(path: &Vec<char>, extension: Option<&str>, pattern: &Vec<char>) -> (b: bool)
    ensures
        b == include_matches(path@, extension.deep_view(), pattern@),
{
    let n = pattern.len();
    if n > 0 && pattern[n - 1] == '/' {
        matches_at(path, pattern, 0)
    } else if n >= 2 && pattern[0] == '*' && pattern[1] == '.' {
        proof {
            assert(pattern@.subrange(0, 2) =~= seq!['*', '.']);
        }
        extension_is(extension, pattern)
    } else {
        proof {
            if has_prefix(pattern@, seq!['*', '.']) {
                assert(pattern@.subrange(0, 2)[0] == '*');
                assert(pattern@.subrange(0, 2)[1] == '.');
            }
        }
        contains(path, pattern)
    }
}

/// Decides whether a path with the given extension is indexed under `config`.
pub fn should_include_with_extension(
    path: &str,
    extension: Option<&str>,
    config: &IndexConfig,
) -> (included: bool)
    ensures
        included == accepts(config@, path@, extension.deep_view()),
{
    let text = chars_of(path);
    let mut i: usize = 0;
    while i < config.exclude.len()
        invariant
            i <= config.exclude.len(),
            text@ == path@,
            forall|k: int| 0 <= k < i ==> !contains_text(text@, #[trigger] config@.exclude[k]),
        decreases config.exclude.len() - i,
    {
        let pattern = chars_of(config.exclude[i].as_str());
        assert(pattern@ == config@.exclude[i as int]);
        if contains(&text, &pattern) {
            return false;
        }
        i += 1;
    }
    let mut j: usize = 0;
    while j < config.includes.len()
        invariant
            j <= config.includes.len(),
            text@ == path@,
            !is_excluded(text@, config@.exclude),
            forall|k: int|
                0 <= k < j ==> !include_matches(
                    text@,
                    extension.deep_view(),
                    #[trigger] config@.includes[k],
                ),
        decreases config.includes.len() - j,
    {
        let pattern = chars_of(config.includes[j].as_str());
        assert(pattern@ == config@.includes[j as int]);
        if include_pattern_matches(&text, extension, &pattern) {
            return true;
        }
        j += 1;
    }
    false
}

/// Decides whether `path` is indexed under `config`, with the extension that
/// the standard library finds in it.
pub fn should_include(path: &str, config: &IndexConfig) -> (included: bool)
    ensures
        included == accepts(config@, path@, path_extension(path@)),
{
    match extension_of(path) {
        Some(e) => should_include_with_extension(path, Some(e.as_str()), config),
        None => should_include_with_extension(path, None, config),
    }
}

/// Exclusion dominates: a path that an exclude pattern matches is rejected,
/// whatever the include patterns say.
pub proof fn lemma_exclusion_dominates(
    config: IndexConfigView,
    path: Seq<char>,
    extension: Option<Seq<char>>,
    i: int,
)
    requires
        0 <= i < config.exclude.len(),
        contains_text(path, config.exclude[i]),
    ensures
        !accepts(config, path, extension),
{
}

/// With no include pattern no path is accepted.
pub proof fn lemma_empty_include_rejects_all(
    config: IndexConfigView,
    path: Seq<char>,
    extension: Option<Seq<char>>,
)
    requires
        config.includes.len() == 0,
    ensures
        !accepts(config, path, extension),
{
}

/// With no exclude pattern a path is accepted exactly when an include pattern
/// matches it.
pub proof fn lemma_empty_exclude_rejects_none(
    config: IndexConfigView,
    path: Seq<char>,
    extension: Option<Seq<char>>,
)
    requires
        config.exclude.len() == 0,
    ensures
        accepts(config, path, extension) == is_included(path, extension, config.includes),
{
}

} // verus!
