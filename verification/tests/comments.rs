use comments::{comment, multi_comment, single_comment, Comment, Kind, Token};

#[test]
fn comments_test() {
    let tests = vec![
        "//single line comments",
        "// another one with a space",
        "/*inline multi comments*/",
        "/*multi line comments
* that have extra decoration
* to help with readability
*/",
    ];
    for test in tests {
        let is_multi = test.starts_with("/*");
        let p = comment(test).unwrap();
        let comment_contents = test
            .lines()
            .map(|l| {
                l.trim()
                    .replace("//", "")
                    .replace("/*", "")
                    .replace("*/", "")
            })
            .collect::<Vec<String>>()
            .join("\n");
        let kind = if is_multi { Kind::Multi } else { Kind::Single };
        let expected = Token::Comment(Comment::from_parts(comment_contents, kind));
        assert_eq!(p, (expected, ""));
    }
}

#[test]
fn greedy_to_first_terminator_single() {
    let (c, rest) = single_comment("//abc\r\ndef").unwrap();
    assert_eq!(c.kind, Kind::Single);
    assert_eq!(c.content, "abc");
    assert_eq!(rest, "\r\ndef");
}

#[test]
fn end_of_input_termination_single() {
    let (c, rest) = single_comment("//no newline at all").unwrap();
    assert_eq!(c.kind, Kind::Single);
    assert_eq!(c.content, "no newline at all");
    assert_eq!(rest, "");
}

#[test]
fn first_close_wins_multi() {
    let (c, rest) = multi_comment("/*a/*b*/c*/").unwrap();
    assert_eq!(c.kind, Kind::Multi);
    assert_eq!(c.content, "a/*b");
    assert_eq!(rest, "c*/");
}

#[test]
fn empty_content_single() {
    let (c, rest) = single_comment("//").unwrap();
    assert_eq!(c.content, "");
    assert_eq!(rest, "");
}

#[test]
fn empty_content_multi() {
    let (c, rest) = multi_comment("/**/").unwrap();
    assert_eq!(c.content, "");
    assert_eq!(rest, "");
}

#[test]
fn non_match_leaves_no_trace() {
    let input = "not a comment";
    assert!(multi_comment(input).is_none());
    assert!(single_comment(input).is_none());
    // A failed alternative consumed nothing: the other recognizer still works
    // on the very same input afterwards.
    let line = "//x";
    assert!(multi_comment(line).is_none());
    let (c, rest) = single_comment(line).unwrap();
    assert_eq!(c.content, "x");
    assert_eq!(rest, "");
    let block = "/*x*/";
    assert!(single_comment(block).is_none());
    let (c, rest) = multi_comment(block).unwrap();
    assert_eq!(c.content, "x");
    assert_eq!(rest, "");
}

#[test]
fn round_trip_single() {
    let (t, _rest) = comment("//hello world").unwrap();
    let Token::Comment(c) = t;
    let rendered = c.to_string();
    assert_eq!(rendered, "//hello world");
    let (t2, rest2) = comment(&rendered).unwrap();
    let Token::Comment(c2) = t2;
    assert_eq!(c2, c);
    assert_eq!(rest2, "");
}

#[test]
fn round_trip_multi() {
    let (t, _rest) = comment("/*a\nb*/tail").unwrap();
    let Token::Comment(c) = t;
    let rendered = c.to_string();
    assert_eq!(rendered, "/*a\nb*/");
    let (t2, rest2) = comment(&rendered).unwrap();
    let Token::Comment(c2) = t2;
    assert_eq!(c2, c);
    assert_eq!(rest2, "");
}

#[test]
fn disjoint_dispatch() {
    let (t, _) = comment("/*x*/ rest").unwrap();
    let Token::Comment(c) = t;
    assert!(c.is_multi_line());
    assert!(!c.is_single_line());
    let (t, _) = comment("//x").unwrap();
    let Token::Comment(c) = t;
    assert!(c.is_single_line());
    assert!(!c.is_multi_line());
}

#[test]
fn unterminated_block_fails_cleanly() {
    assert!(multi_comment("/*never closed").is_none());
    // The line form cannot rescue it: the input does not begin with `//`.
    assert!(comment("/*never closed").is_none());
}

#[test]
fn opener_fragments_fail() {
    assert!(comment("").is_none());
    assert!(comment("/").is_none());
    assert!(comment("/ *").is_none());
    // The `*/` overlapping the opener does not close anything.
    assert!(comment("/*/").is_none());
}

#[test]
fn multi_keeps_embedded_terminators() {
    let (c, rest) = multi_comment("/*multi line comments\n* decorated\n*/").unwrap();
    assert_eq!(c.content, "multi line comments\n* decorated\n");
    assert_eq!(rest, "");
}

#[test]
fn multi_close_after_star_content() {
    let (c, rest) = multi_comment("/*a**/").unwrap();
    assert_eq!(c.content, "a*");
    assert_eq!(rest, "");
}

#[test]
fn single_stops_at_each_terminator_kind() {
    let (c, rest) = single_comment("//a\nb").unwrap();
    assert_eq!(c.content, "a");
    assert_eq!(rest, "\nb");
    let (c, rest) = single_comment("//a\u{2028}b").unwrap();
    assert_eq!(c.content, "a");
    assert_eq!(rest, "\u{2028}b");
    let (c, rest) = single_comment("//a\u{2029}b").unwrap();
    assert_eq!(c.content, "a");
    assert_eq!(rest, "\u{2029}b");
    let (c, rest) = single_comment("//a\rb").unwrap();
    assert_eq!(c.content, "a");
    assert_eq!(rest, "\rb");
}

#[test]
fn render_exact_forms() {
    let c = Comment::from_parts(String::from("abc"), Kind::Single);
    assert_eq!(c.to_string(), "//abc");
    let c = Comment::from_parts(String::from("x"), Kind::Multi);
    assert_eq!(c.to_string(), "/*x*/");
    let c = Comment::from_parts(String::new(), Kind::Multi);
    assert_eq!(c.to_string(), "/**/");
}

#[test]
fn from_parts_and_getters() {
    let c = Comment::from_parts(String::from("body"), Kind::Multi);
    assert_eq!(c.kind, Kind::Multi);
    assert_eq!(c.content, "body");
    assert!(c.is_multi_line());
    let c = Comment::from_parts(String::from("body"), Kind::Single);
    assert!(c.is_single_line());
}
