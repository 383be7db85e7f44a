use quasiquodo::py::lexer::{Scanner, StandInScanner, StandInToken, TokenPosition};

// MARK: Stand-in word boundaries

#[test]
fn test_segments_stand_in_at_word_boundary() {
    let result = StandInScanner::new("hello __pyq_0__ world").collect_tokens();
    assert_eq!(
        result,
        vec![
            StandInToken::Text("hello"),
            StandInToken::Text(" "),
            StandInToken::StandIn("__pyq_0__"),
            StandInToken::Text(" world"),
        ]
    );
}

#[test]
fn test_segments_stand_in_not_at_word_boundary() {
    let result = StandInScanner::new("foo__pyq_0__bar").collect_tokens();
    assert_eq!(result, vec![StandInToken::Text("foo__pyq_0__bar")]);
}

#[test]
fn stand_in_segments_of_unicode_words() {
    let result = StandInScanner::new("héllo __pyq_7__").collect_tokens();
    assert_eq!(
        result,
        vec![
            StandInToken::Text("héllo"),
            StandInToken::Text(" "),
            StandInToken::StandIn("__pyq_7__"),
        ]
    );
}

// MARK: Scanner, code

#[test]
fn test_scan_marker_in_code() {
    let result = Scanner::new("x = #{v}").collect_tokens();
    assert_eq!(result.len(), 1);
    assert_eq!(result[0].name, "v");
    assert_eq!(result[0].span, 4..8);
    assert_eq!(result[0].pos, TokenPosition::Code);
}

#[test]
fn test_scan_multiple_markers_in_code() {
    let result = Scanner::new("#{a} + #{b}").collect_tokens();
    assert_eq!(result.len(), 2);
    assert_eq!(result[0].name, "a");
    assert_eq!(result[0].pos, TokenPosition::Code);
    assert_eq!(result[1].name, "b");
    assert_eq!(result[1].pos, TokenPosition::Code);
}

// MARK: Scanner, string

#[test]
fn test_scan_marker_in_double_quoted_string_ignored() {
    let result = Scanner::new(r#"x = "hello #{v}""#).collect_tokens();
    assert_eq!(result.len(), 0);
}

#[test]
fn test_scan_marker_in_single_quoted_string_ignored() {
    let result = Scanner::new("x = 'hello #{v}'").collect_tokens();
    assert_eq!(result.len(), 0);
}

#[test]
fn test_scan_marker_in_triple_quoted_string() {
    let result = Scanner::new(r#"x = """hello #{v}""""#).collect_tokens();
    assert_eq!(result.len(), 1);
    assert_eq!(result[0].name, "v");
    assert_eq!(result[0].pos, TokenPosition::String);
}

#[test]
fn test_scan_marker_in_raw_string_ignored() {
    let result = Scanner::new(r#"r"hello #{v}""#).collect_tokens();
    assert_eq!(result.len(), 0);
}

#[test]
fn test_scan_marker_in_byte_string_ignored() {
    let result = Scanner::new(r#"b"hello #{v}""#).collect_tokens();
    assert_eq!(result.len(), 0);
}

// MARK: Scanner, mixed code and string

#[test]
fn test_scan_marker_in_plain_string_ignored() {
    // Only the code position marker should be found; the one
    // inside the plain double-quoted string should be ignored.
    let result = Scanner::new(r#"#{a} = "hello #{b}""#).collect_tokens();
    assert_eq!(result.len(), 1);
    assert_eq!(result[0].name, "a");
    assert_eq!(result[0].pos, TokenPosition::Code);
}

// MARK: Scanner, comments

#[test]
fn test_scan_comments() {
    // Placeholder inside a comment is ignored.
    let result = Scanner::new("x = 1  # #{v}").collect_tokens();
    assert_eq!(result.len(), 0);

    // Placeholder on the line after a comment is found.
    let result = Scanner::new("# comment\n#{v}").collect_tokens();
    assert_eq!(result.len(), 1);
    assert_eq!(result[0].name, "v");
    assert_eq!(result[0].pos, TokenPosition::Code);

    // Comment at EOF without trailing newline.
    let result = Scanner::new("# just a comment").collect_tokens();
    assert_eq!(result.len(), 0);

    // Bare `#` at EOF.
    let result = Scanner::new("#").collect_tokens();
    assert_eq!(result.len(), 0);

    // Comment terminated by `\r\n`.
    let result = Scanner::new("# comment\r\n#{v}").collect_tokens();
    assert_eq!(result.len(), 1);
    assert_eq!(result[0].name, "v");
    assert_eq!(result[0].pos, TokenPosition::Code);

    // Comment terminated by bare `\r`.
    let result = Scanner::new("# comment\r#{v}").collect_tokens();
    assert_eq!(result.len(), 1);
    assert_eq!(result[0].name, "v");
    assert_eq!(result[0].pos, TokenPosition::Code);
}

// MARK: Scanner, escapes

#[test]
fn test_scan_escaped_quote_in_string() {
    // The string `"hello \" #{v}"`. The escaped `\"` doesn't terminate
    // the string, so the placeholder inside should be ignored and
    // treated as text.
    let result = Scanner::new(r#""hello \" #{v}""#).collect_tokens();
    assert_eq!(result.len(), 0);
}

#[test]
fn test_scan_backslash_at_end_of_string() {
    // The string `"hello\\"`, followed by `#{v}` in code position.
    // `\\` is an escaped backslash; the following `"` closes the string.
    let result = Scanner::new(r#""hello\\" #{v}"#).collect_tokens();
    assert_eq!(result.len(), 1);
    assert_eq!(result[0].pos, TokenPosition::Code);
}

// MARK: Scanner, f-strings

#[test]
fn test_scan_marker_in_fstring_text() {
    let result = Scanner::new(r#"f"hello #{v}""#).collect_tokens();
    assert_eq!(result.len(), 1);
    assert_eq!(result[0].pos, TokenPosition::String);
}

#[test]
fn test_scan_marker_in_fstring_expr() {
    let result = Scanner::new(r#"f"{#{v}}""#).collect_tokens();
    assert_eq!(result.len(), 1);
    assert_eq!(result[0].pos, TokenPosition::Code);
}

#[test]
fn test_scan_escaped_brace_in_fstring() {
    // `{{` is an escaped literal brace, not an expression hole;
    // `#{v}` occurs inside the f-string, so it's returned;
    // `}}` is an escaped literal closing brace.
    let result = Scanner::new(r#"f"{{#{v}}}""#).collect_tokens();
    assert_eq!(result.len(), 1);
    assert_eq!(result[0].name, "v");
    assert_eq!(result[0].pos, TokenPosition::String);
}

#[test]
fn test_scan_nested_plain_string_in_fstring_expr_ignored() {
    // `f"{'hello #{v}'}"`: the inner string is plain (not interpolated
    // or triple-quoted), so `#{v}` inside it is not a placeholder, despite
    // the outer string being an f-string.
    let result = Scanner::new("f\"{'hello #{v}'}\"").collect_tokens();
    assert_eq!(result.len(), 0);
}

#[test]
fn test_scan_marker_nested_fstring_in_fstring_expr() {
    // `f"{f'hello #{v}'}"` is an f-string inside an f-string,
    // so `#{v}` should be treated as a placeholder.
    let result = Scanner::new(r#"f"{f'hello #{v}'}""#).collect_tokens();
    assert_eq!(result.len(), 1);
    assert_eq!(result[0].name, "v");
    assert_eq!(result[0].pos, TokenPosition::String);
}

#[test]
fn test_scan_dict_in_fstring_expr() {
    // `f"{ {1: #{v}} }"` is a dict literal inside an f-string,
    // so we should see the placeholder in code position.
    let result = Scanner::new("f\"{ {1: #{v}} }\"").collect_tokens();
    assert_eq!(result.len(), 1);
    assert_eq!(result[0].pos, TokenPosition::Code);
}

// MARK: Scanner, t-strings

#[test]
fn test_scan_marker_in_tstring_text() {
    let result = Scanner::new(r#"t"hello #{v}""#).collect_tokens();
    assert_eq!(result.len(), 1);
    assert_eq!(result[0].pos, TokenPosition::String);
}

#[test]
fn test_scan_marker_in_tstring_expr() {
    let result = Scanner::new(r#"t"{#{v}}""#).collect_tokens();
    assert_eq!(result.len(), 1);
    assert_eq!(result[0].pos, TokenPosition::Code);
}

#[test]
fn scanner_spans_are_bytes_and_in_order() {
    let result = Scanner::new("ß = #{a}; #{b}").collect_tokens();
    assert_eq!(result.len(), 2);
    assert_eq!(result[0].span, 5..9);
    assert_eq!(result[1].span, 11..15);
    assert!(result[0].span.end <= result[1].span.start);
}

#[test]
fn scanner_accepts_unicode_names() {
    let result = Scanner::new("#{é} + #{名前} + #{1x}").collect_tokens();
    let names: Vec<_> = result.iter().map(|t| t.name.as_str()).collect();
    assert_eq!(names, vec!["é", "名前"]);
}

#[test]
fn stand_in_segments_join_back_to_the_text() {
    let text = "x__pyq_1__ __pyq_22__(__pyq_3__) é__pyq_4__";
    let joined: String = StandInScanner::new(text)
        .collect_tokens()
        .iter()
        .map(|t| match t {
            StandInToken::StandIn(s) | StandInToken::Text(s) => *s,
        })
        .collect();
    assert_eq!(joined, text);
    let stand_ins: Vec<_> = StandInScanner::new(text)
        .collect_tokens()
        .into_iter()
        .filter(|t| matches!(t, StandInToken::StandIn(_)))
        .collect();
    // `__pyq_4__` continues the word `é`, so it stays text.
    assert_eq!(
        stand_ins,
        vec![
            StandInToken::StandIn("__pyq_22__"),
            StandInToken::StandIn("__pyq_3__"),
        ]
    );
}

#[test]
fn stand_in_inside_a_word_after_a_space_stays_text() {
    let result = StandInScanner::new(" foo__pyq_0__bar").collect_tokens();
    assert_eq!(result, vec![StandInToken::Text(" foo__pyq_0__bar")]);
    let result = StandInScanner::new("(a__pyq_1__ __pyq_2__").collect_tokens();
    assert_eq!(
        result,
        vec![
            StandInToken::Text("(a__pyq_1__ "),
            StandInToken::StandIn("__pyq_2__"),
        ]
    );
}

#[test]
fn exhausted_stand_in_scanner_stays_exhausted() {
    let mut it = StandInScanner::new("__pyq_0__");
    assert_eq!(it.next(), Some(StandInToken::StandIn("__pyq_0__")));
    assert_eq!(it.next(), None);
    assert_eq!(it.next(), None);
}

fn stand_ins_of(text: &str) -> Vec<String> {
    StandInScanner::new(text)
        .collect_tokens()
        .into_iter()
        .filter_map(|t| match t {
            StandInToken::StandIn(s) => Some(s.to_string()),
            StandInToken::Text(_) => None,
        })
        .collect()
}

#[test]
fn stand_ins_keep_after_a_leading_non_word_char() {
    for s in ["foo__pyq_0__bar", "__pyq_1__ x", "a __pyq_2__(__pyq_3__)", "é__pyq_4__ __pyq_5__", "__pyq_6____pyq_7__"] {
        for c in [' ', '(', '.', '\n'] {
            assert_eq!(stand_ins_of(&format!("{c}{s}")), stand_ins_of(s), "{c:?} {s:?}");
        }
    }
}

#[test]
fn placeholder_spans_hold_their_placeholders() {
    let source = "é = #{α} + f\"{#{b_1}}\" # #{c}\nx = '#{d}'";
    let toks = Scanner::new(source).collect_tokens();
    assert!(toks.len() >= 2);
    for t in &toks {
        assert_eq!(&source[t.span.clone()], format!("#{{{}}}", t.name));
    }
    for w in toks.windows(2) {
        assert!(w[0].span.start < w[0].span.end && w[0].span.end <= w[1].span.start);
    }
    let mut it = Scanner::new("#{a}");
    assert!(it.next().is_some());
    assert!(it.next().is_none());
    assert!(it.next().is_none());
}
