use context_rag::chunker::{chunk, MAX_CHUNK_SIZE};

fn line_of(c: char, n: usize) -> String {
    std::iter::repeat(c).take(n).collect()
}

#[test]
fn short_content_is_one_chunk() {
    assert_eq!(chunk("hello\nworld"), vec!["hello\nworld"]);
    assert_eq!(chunk("hello\nworld\n"), vec!["hello\nworld"]);
    assert_eq!(chunk("  hello  "), vec!["hello"]);
}

#[test]
fn empty_content_is_one_empty_chunk() {
    assert_eq!(chunk(""), vec![""]);
}

#[test]
fn blank_content_is_kept_whole() {
    assert_eq!(chunk("   "), vec!["   "]);
    assert_eq!(chunk("\n\n"), vec!["\n\n"]);
    assert_eq!(chunk(" \r\n\t\n"), vec![" \r\n\t\n"]);
}

#[test]
fn carriage_returns_before_line_feeds_are_dropped() {
    assert_eq!(chunk("a\r\nb\r\n"), vec!["a\nb"]);
}

#[test]
fn three_long_lines_make_three_chunks() {
    let a = line_of('a', 830);
    let b = line_of('b', 830);
    let c = line_of('c', 838);
    let content = format!("{}\n{}\n{}", a, b, c);
    assert_eq!(content.chars().count(), 2500);
    assert_eq!(chunk(&content), vec![a, b, c]);
}

#[test]
fn lines_are_packed_up_to_the_limit() {
    let a = line_of('a', 400);
    let b = line_of('b', 599);
    let c = line_of('c', 10);
    let content = format!("{}\n{}\n{}\n", a, b, c);
    // 401 + 599 = 1000 does not exceed the limit, so the second line joins.
    assert_eq!(chunk(&content), vec![format!("{}\n{}", a, b), c]);
}

#[test]
fn a_line_that_would_exceed_the_limit_starts_a_chunk() {
    let a = line_of('a', 400);
    let b = line_of('b', 600);
    let content = format!("{}\n{}", a, b);
    // 401 + 600 = 1001 exceeds the limit.
    assert_eq!(chunk(&content), vec![a, b]);
}

#[test]
fn the_limit_counts_characters() {
    let a = line_of('\u{e9}', 499);
    let b = line_of('\u{4e16}', 500);
    let content = format!("{}\n{}", a, b);
    assert_eq!(chunk(&content), vec![format!("{}\n{}", a, b)]);
}

#[test]
fn an_oversized_line_is_not_split() {
    let long = line_of('x', 2500);
    assert_eq!(chunk(&long), vec![long.clone()]);
    let content = format!("head\n{}\ntail", long);
    assert_eq!(chunk(&content), vec!["head".to_string(), long, "tail".to_string()]);
}

#[test]
fn chunks_of_many_lines_stay_within_the_limit() {
    let mut content = String::new();
    let mut i: usize = 0;
    while i < 500 {
        content.push_str(&format!("line number {} of the text\n", i));
        i += 1;
    }
    let chunks = chunk(&content);
    assert!(chunks.len() > 1);
    for c in &chunks {
        assert!(c.chars().count() <= MAX_CHUNK_SIZE);
        assert!(!c.trim().is_empty());
    }
    let rebuilt: Vec<String> =
        chunks.iter().flat_map(|c| c.lines().map(|l| l.to_string()).collect::<Vec<_>>()).collect();
    let expected: Vec<String> = content.lines().map(|l| l.to_string()).collect();
    assert_eq!(rebuilt, expected);
}

#[test]
fn blank_lines_that_fill_a_chunk_leave_it_empty() {
    let long = line_of('x', 1000);
    let content = format!("   \n{}", long);
    assert_eq!(chunk(&content), vec!["".to_string(), long]);
}

#[test]
fn a_blank_tail_yields_no_chunk() {
    let a = line_of('a', 990);
    let content = format!("{}\n{}\n", a, line_of(' ', 20));
    assert_eq!(chunk(&content), vec![a]);
}

#[test]
fn blank_content_over_the_limit_is_kept_whole() {
    let mut content = String::new();
    let mut i: usize = 0;
    while i < 600 {
        content.push_str("\r\n");
        i += 1;
    }
    assert_eq!(chunk(&content), vec![content.clone()]);
}
