use space_soup_editor::chars::{byte_idx, char_len, digit_count, str_eq, substr, substr_from};
use space_soup_editor::json_tokens::{highlight_json_line, next_is_colon, tokenize, Kind, SynStyle, Tok};

fn chars(s: &str) -> Vec<char> {
    s.chars().collect()
}

#[test]
fn char_len_counts_characters_not_bytes() {
    assert_eq!(char_len(""), 0);
    assert_eq!(char_len("abc"), 3);
    assert_eq!(char_len("héllo"), 5);
    assert_eq!(char_len("日本"), 2);
}

#[test]
fn byte_idx_maps_columns_to_bytes() {
    assert_eq!(byte_idx("héllo", 0), 0);
    assert_eq!(byte_idx("héllo", 1), 1);
    assert_eq!(byte_idx("héllo", 2), 3);
    assert_eq!(byte_idx("héllo", 5), 6);
    assert_eq!(byte_idx("héllo", 99), 6);
    assert_eq!(byte_idx("a日b", 2), 4);
    assert_eq!(byte_idx("😀x", 1), 4);
}

#[test]
fn substr_cuts_by_character() {
    assert_eq!(substr("héllo", 1, 3), "él");
    assert_eq!(substr("héllo", 3, 1), "");
    assert_eq!(substr("héllo", 2, 99), "llo");
    assert_eq!(substr("héllo", 7, 9), "");
    assert_eq!(substr_from("héllo", 1), "éllo");
    assert_eq!(substr_from("héllo", 5), "");
    assert_eq!(substr_from("héllo", 50), "");
}

#[test]
fn digit_count_has_minimum_two() {
    assert_eq!(digit_count(0), 2);
    assert_eq!(digit_count(7), 2);
    assert_eq!(digit_count(42), 2);
    assert_eq!(digit_count(100), 3);
    assert_eq!(digit_count(99999), 5);
    assert_eq!(digit_count(usize::MAX), usize::MAX.to_string().len());
}

#[test]
fn str_eq_compares_text() {
    assert!(str_eq("abc", "abc"));
    assert!(!str_eq("abc", "abd"));
    assert!(!str_eq("ab", "abc"));
}

#[test]
fn tokenize_classifies_json() {
    let line = chars("  \"key\": -12.5e3, true null foo // note");
    let toks = tokenize(&line);
    let kinds: Vec<Kind> = toks.iter().map(|t| t.kind).collect();
    assert_eq!(
        kinds,
        vec![
            Kind::Ws,
            Kind::Str,
            Kind::Punct,
            Kind::Ws,
            Kind::Number,
            Kind::Punct,
            Kind::Ws,
            Kind::Literal,
            Kind::Ws,
            Kind::Literal,
            Kind::Ws,
            Kind::Other,
            Kind::Ws,
            Kind::Comment,
        ]
    );
    assert_eq!(toks[0], Tok { start: 0, end: 2, kind: Kind::Ws });
    assert_eq!(toks[1], Tok { start: 2, end: 7, kind: Kind::Str });
    assert_eq!(toks[4], Tok { start: 9, end: 16, kind: Kind::Number });
    assert_eq!(toks.last().unwrap().end, line.len());
}

#[test]
fn tokenize_partitions_line() {
    let line = chars("{\"a\\\"b\":[1,2],\"x\" @ -y}");
    let toks = tokenize(&line);
    assert_eq!(toks[0].start, 0);
    for w in toks.windows(2) {
        assert_eq!(w[0].end, w[1].start);
        assert!(w[0].start < w[0].end);
    }
    assert_eq!(toks.last().unwrap().end, line.len());
    assert_eq!(toks[1], Tok { start: 1, end: 7, kind: Kind::Str });
}

#[test]
fn tokenize_unterminated_string_and_escape_at_end() {
    let line = chars("\"abc\\");
    let toks = tokenize(&line);
    assert_eq!(toks, vec![Tok { start: 0, end: 5, kind: Kind::Str }]);
    assert!(tokenize(&[]).is_empty());
    let minus = chars("-x");
    let t = tokenize(&minus);
    assert_eq!(t[0].kind, Kind::Other);
    assert_eq!(t[1].kind, Kind::Other);
}

#[test]
fn next_is_colon_skips_blanks() {
    let line = chars("\"k\" : 1");
    let toks = tokenize(&line);
    assert!(next_is_colon(&toks, 0, &line));
    let line2 = chars("\"k\" , 1");
    let toks2 = tokenize(&line2);
    assert!(!next_is_colon(&toks2, 0, &line2));
    let line3 = chars("\"k\"");
    let toks3 = tokenize(&line3);
    assert!(!next_is_colon(&toks3, 0, &line3));
}

#[test]
fn highlight_styles_keys_and_values() {
    let line = chars("{\"k\": \"v\", \"n\": 3}");
    let spans = highlight_json_line(&line, 0);
    let styled: Vec<(String, SynStyle)> = spans.into_iter().map(|s| (s.text, s.style)).collect();
    assert_eq!(styled[0], ("{".to_string(), SynStyle::Punct));
    assert_eq!(styled[1], ("\"k\"".to_string(), SynStyle::Key));
    assert_eq!(styled[4], ("\"v\"".to_string(), SynStyle::StringLit));
    assert!(styled.contains(&("3".to_string(), SynStyle::Number)));
}

#[test]
fn highlight_respects_scroll() {
    let line = chars("\"key\": true");
    let spans = highlight_json_line(&line, 2);
    let text: String = spans.iter().map(|s| s.text.clone()).collect();
    assert_eq!(text, "ey\": true");
    assert_eq!(spans[0].text, "ey\"");
    assert_eq!(spans[0].style, SynStyle::Key);
    assert!(highlight_json_line(&line, 50).is_empty());
    assert!(highlight_json_line(&[], 0).is_empty());
}
