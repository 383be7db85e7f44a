use quasiquodo::ts::lexer::{
    scan_source, CommentScanner, PlaceholderToken, SourceScanner, StandInScanner, StandInToken,
};

// MARK: Source

#[test]
fn test_source_scanner_single_placeholder() {
    let result = scan_source("foo(#{bar})");
    assert_eq!(result, vec![PlaceholderToken::new("bar", 4..10)]);
}

#[test]
fn test_source_scanner_multiple_placeholders() {
    let result = scan_source("#{a} + #{b}");
    assert_eq!(
        result,
        vec![
            PlaceholderToken::new("a", 0..4),
            PlaceholderToken::new("b", 7..11),
        ]
    );
}

#[test]
fn test_source_scanner_no_placeholders() {
    assert!(SourceScanner::new("", 1, vec![]).is_none());

    let result = scan_source("foo + bar");
    assert!(result.is_empty());

    // A space between `#` and `{` means the spans aren't adjacent.
    let result = scan_source("# {bar}");
    assert!(result.is_empty());
}

#[test]
fn test_source_scanner_placeholder_at_start() {
    let result = scan_source("#{x}");
    assert_eq!(result, vec![PlaceholderToken::new("x", 0..4)]);
}

#[test]
fn test_source_scanner_placeholder_at_end() {
    let result = scan_source("foo + #{x}");
    assert_eq!(result, vec![PlaceholderToken::new("x", 6..10)]);
}

#[test]
fn source_scanner_reports_byte_spans_after_multibyte_text() {
    // `é` takes two bytes, so the placeholder starts at byte 7.
    let result = scan_source("\"é\" + #{x}");
    assert_eq!(result, vec![PlaceholderToken::new("x", 7..11)]);
}

// MARK: Comments

#[test]
fn test_comment_scanner_single_placeholder() {
    let result = CommentScanner::new("#{foo}").collect_tokens();
    assert_eq!(result, vec![PlaceholderToken::new("foo", 0..6)]);
}

#[test]
fn test_comment_scanner_multiple_placeholders() {
    let result = CommentScanner::new("#{a} and #{b}").collect_tokens();
    assert_eq!(
        result,
        vec![
            PlaceholderToken::new("a", 0..4),
            PlaceholderToken::new("b", 9..13),
        ]
    );
}

#[test]
fn test_comment_scanner_no_placeholders() {
    let result = CommentScanner::new("").collect_tokens();
    assert!(result.is_empty());

    let result = CommentScanner::new("just text").collect_tokens();
    assert!(result.is_empty());

    // A `#` not followed by `{` should be skipped.
    let result = CommentScanner::new("#foo #{bar}").collect_tokens();
    assert_eq!(result, vec![PlaceholderToken::new("bar", 5..11)]);

    // Digits can't start variable names.
    let result = CommentScanner::new("#{0bad}").collect_tokens();
    assert!(result.is_empty());
}

#[test]
fn test_comment_scanner_adjacent_placeholders() {
    let result = CommentScanner::new("foo#{a}#{b}bar").collect_tokens();
    assert_eq!(
        result,
        vec![
            PlaceholderToken::new("a", 3..7),
            PlaceholderToken::new("b", 7..11),
        ]
    );
}

#[test]
fn comment_scanner_spans_count_bytes() {
    let result = CommentScanner::new("ü #{name}").collect_tokens();
    assert_eq!(result, vec![PlaceholderToken::new("name", 3..10)]);
}

// MARK: Stand-ins

#[test]
fn test_stand_in_scanner_single_token() {
    let result = StandInScanner::new("__tsq_0__").collect_tokens();
    assert_eq!(result, vec![StandInToken::StandIn("__tsq_0__")]);
}

#[test]
fn test_stand_in_scanner_multiple_tokens() {
    let result = StandInScanner::new("__tsq_0__ + __tsq_1__").collect_tokens();
    assert_eq!(
        result,
        vec![
            StandInToken::StandIn("__tsq_0__"),
            StandInToken::Text(" + "),
            StandInToken::StandIn("__tsq_1__"),
        ]
    );
}

#[test]
fn test_stand_in_scanner_no_stand_ins() {
    let result = StandInScanner::new("").collect_tokens();
    assert!(result.is_empty());

    // `__tsq___` has no digits, so it's not a stand-in.
    let result = StandInScanner::new("__tsq___").collect_tokens();
    assert_eq!(result, vec![StandInToken::Text("__tsq___")]);

    // `__tsq_0` lacks the closing `__`.
    let result = StandInScanner::new("__tsq_0").collect_tokens();
    assert_eq!(result, vec![StandInToken::Text("__tsq_0")]);
}

#[test]
fn test_stand_in_scanner_at_word_boundary() {
    let result = StandInScanner::new("* __tsq_0__ bar").collect_tokens();
    assert_eq!(
        result,
        vec![
            StandInToken::Text("* "),
            StandInToken::StandIn("__tsq_0__"),
            StandInToken::Text(" bar"),
        ]
    );
}

#[test]
fn test_stand_in_scanner_not_at_word_boundary() {
    let result = StandInScanner::new("foo__tsq_0__bar").collect_tokens();
    assert_eq!(result, vec![StandInToken::Text("foo__tsq_0__bar")]);
}

#[test]
fn stand_in_inside_a_word_after_punctuation_stays_text() {
    let result = StandInScanner::new("* foo__tsq_0__bar").collect_tokens();
    assert_eq!(result, vec![StandInToken::Text("* foo__tsq_0__bar")]);
    let result = StandInScanner::new("* $__tsq_1__ __tsq_2__").collect_tokens();
    assert_eq!(
        result,
        vec![
            StandInToken::Text("* $__tsq_1__ "),
            StandInToken::StandIn("__tsq_2__"),
        ]
    );
}

#[test]
fn test_stand_in_scanner_adjacent_stand_ins() {
    let result = StandInScanner::new("__tsq_0____tsq_1__").collect_tokens();
    // The first stand-in consumes `__tsq_0__`, then the
    // remaining `__tsq_1__` is a separate stand-in.
    assert_eq!(
        result,
        vec![
            StandInToken::StandIn("__tsq_0__"),
            StandInToken::StandIn("__tsq_1__"),
        ]
    );
}

#[test]
fn stand_in_scanner_segments_join_back_to_the_text() {
    let text = "a __tsq_12__, b__tsq_3__ and __tsq_4__";
    let joined: String = StandInScanner::new(text)
        .collect_tokens()
        .iter()
        .map(|t| match t {
            StandInToken::StandIn(s) | StandInToken::Text(s) => *s,
        })
        .collect();
    assert_eq!(joined, text);
}

#[test]
fn comment_scanner_accepts_unicode_names() {
    let result = CommentScanner::new("#{ñame} #{$x} #{_y}").collect_tokens();
    let names: Vec<_> = result.iter().map(|t| t.name.as_str()).collect();
    assert_eq!(names, vec!["ñame", "$x", "_y"]);
}

#[test]
fn stand_in_inside_unicode_word_is_text() {
    let result = StandInScanner::new("é__tsq_0__").collect_tokens();
    assert_eq!(result, vec![StandInToken::Text("é__tsq_0__")]);
}
