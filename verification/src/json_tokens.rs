//! Lexing of one line of JSON(-with-comments) text for syntax highlighting.
//!
//! A line is cut into tokens that cover it exactly, left to right; each token
//! is then given a highlight style, and the part of it that lies right of the
//! horizontal scroll offset is kept for display.
use vstd::prelude::*;

verus! {

/// The lexical class of a token.
#[derive(Clone, Copy, PartialEq, Eq, Debug, Structural)]
pub enum Kind {
    Str,
    Number,
    Literal,
    Punct,
    Ws,
    Comment,
    Other,
}

/// A token: characters `[start, end)` of the line, of class `kind`.
#[derive(Clone, Copy, PartialEq, Eq, Debug, Structural)]
pub struct Tok {
    pub start: usize,
    pub end: usize,
    pub kind: Kind,
}

/// The colour class a token is drawn with.
#[derive(Clone, Copy, PartialEq, Eq, Debug, Structural)]
pub enum SynStyle {
    Plain,
    StringLit,
    Number,
    Keyword,
    Key,
    Punct,
    Comment,
}

/// A piece of highlighted text.
#[derive(PartialEq, Eq, Debug)]
pub struct HlSpan {
    pub text: String,
    pub style: SynStyle,
}

pub open spec fn is_ws(c: char) -> bool {
    c == ' ' || c == '\t'
}

pub open spec fn is_digit(c: char) -> bool {
    48 <= (c as u32) <= 57
}

pub open spec fn is_alpha(c: char) -> bool {
    65 <= (c as u32) <= 90 || 97 <= (c as u32) <= 122
}

/// Characters that may continue a number after its first character.
pub open spec fn is_number_tail(c: char) -> bool {
    is_digit(c) || c == '.' || c == 'e' || c == 'E' || c == '+' || c == '-'
}

pub open spec fn is_punct(c: char) -> bool {
    c == '{' || c == '}' || c == '[' || c == ']' || c == ':' || c == ','
}

/// End of the longest run starting at `i` of characters satisfying `p`.
pub open spec fn run_end(s: Seq<char>, i: int, p: spec_fn(char) -> bool) -> int
    decreases s.len() - i,
{
    if 0 <= i < s.len() && p(s[i]) {
        run_end(s, i + 1, p)
    } else {
        i
    }
}

/// Scanning position after a string body that starts at `i` (just past the
/// opening quote): a backslash skips the next character, a quote ends the
/// string (the position after it is returned); at the end of the line the
/// position reached is returned (which may be one past the end).
pub open spec fn string_end(s: Seq<char>, i: int) -> int
    decreases s.len() + 1 - i,
{
    if i < 0 || i >= s.len() {
        i
    } else if s[i] == '\\' {
        string_end(s, i + 2)
    } else if s[i] == '"' {
        i + 1
    } else {
        string_end(s, i + 1)
    }
}

pub open spec fn is_literal_word(w: Seq<char>) -> bool {
    w == seq!['t', 'r', 'u', 'e'] || w == seq!['f', 'a', 'l', 's', 'e'] || w == seq![
        'n',
        'u',
        'l',
        'l',
    ]
}

pub open spec fn min_int(a: int, b: int) -> int {
    if a < b {
        a
    } else {
        b
    }
}

/// End and class of the token that begins at `i` (for `0 <= i < s.len()`).
pub open spec fn token_at(s: Seq<char>, i: int) -> (int, Kind) {
    let n = s.len() as int;
    let c = s[i];
    if is_ws(c) {
        (run_end(s, i, |x: char| is_ws(x)), Kind::Ws)
    } else if c == '"' {
        (min_int(string_end(s, i + 1), n), Kind::Str)
    } else if c == '/' && i + 1 < n && s[i + 1] == '/' {
        (n, Kind::Comment)
    } else if is_digit(c) || (c == '-' && i + 1 < n && is_digit(s[i + 1])) {
        (run_end(s, i + 1, |x: char| is_number_tail(x)), Kind::Number)
    } else if is_alpha(c) {
        let e = run_end(s, i, |x: char| is_alpha(x));
        (e, if is_literal_word(s.subrange(i, e)) { Kind::Literal } else { Kind::Other })
    } else if is_punct(c) {
        (i + 1, Kind::Punct)
    } else {
        (i + 1, Kind::Other)
    }
}

proof fn lemma_run_end_bounds(s: Seq<char>, i: int, p: spec_fn(char) -> bool)
    requires
        0 <= i <= s.len(),
    ensures
        i <= run_end(s, i, p) <= s.len(),
        forall|j: int| i <= j < run_end(s, i, p) ==> p(#[trigger] s[j]),
        run_end(s, i, p) < s.len() ==> !p(s[run_end(s, i, p)]),
    decreases s.len() - i,
{
    if i < s.len() && p(s[i]) {
        lemma_run_end_bounds(s, i + 1, p);
    }
}

proof fn lemma_string_end_bounds(s: Seq<char>, i: int)
    requires
        0 <= i,
    ensures
        i <= string_end(s, i),
    decreases s.len() + 1 - i,
{
    if i < s.len() {
        if s[i] == '\\' {
            lemma_string_end_bounds(s, i + 2);
        } else if s[i] != '"' {
            lemma_string_end_bounds(s, i + 1);
        }
    }
}

proof fn lemma_string_end_le(s: Seq<char>, i: int)
    requires
        0 <= i <= s.len(),
    ensures
        string_end(s, i) <= s.len() + 1,
    decreases s.len() - i,
{
    if i < s.len() {
        if s[i] == '\\' {
            if i + 2 <= s.len() {
                lemma_string_end_le(s, i + 2);
            } else {
                assert(string_end(s, i + 2) == i + 2);
            }
        } else if s[i] != '"' {
            lemma_string_end_le(s, i + 1);
        }
    }
}

/// The token that starts at `i` is non-empty and stays within the line.
pub proof fn lemma_token_at_bounds(s: Seq<char>, i: int)
    requires
        0 <= i < s.len(),
    ensures
        i < token_at(s, i).0 <= s.len(),
{
    let c = s[i];
    lemma_run_end_bounds(s, i, |x: char| is_ws(x));
    lemma_run_end_bounds(s, i, |x: char| is_alpha(x));
    lemma_run_end_bounds(s, i + 1, |x: char| is_number_tail(x));
    lemma_string_end_bounds(s, i + 1);
}

/// The tokens of `s` from position `i` on.
pub open spec fn tokens_from(s: Seq<char>, i: int) -> Seq<Tok>
    decreases s.len() - i,
{
    if 0 <= i < s.len() {
        let (e, k) = token_at(s, i);
        if i < e <= s.len() {
            seq![Tok { start: i as usize, end: e as usize, kind: k }] + tokens_from(s, e)
        } else {
            Seq::empty()
        }
    } else {
        Seq::empty()
    }
}

/// The tokens of a whole line.
pub open spec fn spec_tokenize(s: Seq<char>) -> Seq<Tok> {
    tokens_from(s, 0)
}

/// The tokens from `i` on are contiguous, non-empty, and cover `[i, s.len())`.
pub open spec fn covers(s: Seq<char>, t: Seq<Tok>, i: int) -> bool {
    &&& t.len() == 0 <==> i >= s.len()
    &&& t.len() > 0 ==> t[0].start == i && t[t.len() - 1].end == s.len()
    &&& forall|k: int| 0 <= k < t.len() ==> #[trigger] t[k].start < t[k].end <= s.len()
    &&& forall|k: int| 0 <= k < t.len() - 1 ==> #[trigger] t[k].end == t[k + 1].start
}

proof fn lemma_tokens_from_cover(s: Seq<char>, i: int)
    requires
        0 <= i <= s.len(),
        s.len() <= usize::MAX,
    ensures
        covers(s, tokens_from(s, i), i),
    decreases s.len() - i,
{
    if i < s.len() {
        lemma_token_at_bounds(s, i);
        let (e, k) = token_at(s, i);
        lemma_tokens_from_cover(s, e);
        let rest = tokens_from(s, e);
        let t = tokens_from(s, i);
        assert(t == seq![Tok { start: i as usize, end: e as usize, kind: k }] + rest);
        assert forall|j: int| 0 <= j < t.len() - 1 implies #[trigger] t[j].end == t[j + 1].start by {
            if j > 0 {
                assert(t[j] == rest[j - 1]);
                assert(t[j + 1] == rest[j]);
            }
        }
        assert forall|j: int| 0 <= j < t.len() implies #[trigger] t[j].start < t[j].end <= s.len() by {
            if j > 0 {
                assert(t[j] == rest[j - 1]);
            }
        }
    }
}

/// Law: the tokens of a line are non-empty, follow each other without gap or
/// overlap, and together cover the whole line.
pub proof fn lemma_tokenize_partitions(s: Seq<char>)
    requires
        s.len() <= usize::MAX,
    ensures
        covers(s, spec_tokenize(s), 0),
{
    lemma_tokens_from_cover(s, 0);
}

/// Each token of the line starting at `i` is the token that `token_at`
/// finds at its start.
proof fn lemma_tokens_from_token_at(s: Seq<char>, i: int, k: int)
    requires
        0 <= i <= s.len(),
        s.len() <= usize::MAX,
        0 <= k < tokens_from(s, i).len(),
    ensures
        ({
            let t = tokens_from(s, i)[k];
            &&& 0 <= t.start < t.end <= s.len()
            &&& token_at(s, t.start as int) == (t.end as int, t.kind)
        }),
    decreases s.len() - i,
{
    lemma_token_at_bounds(s, i);
    let (e, kd) = token_at(s, i);
    if k > 0 {
        lemma_tokens_from_token_at(s, e, k - 1);
        assert(tokens_from(s, i)[k] == tokens_from(s, e)[k - 1]);
    }
}

/// The three JSON literal words.
pub open spec fn json_word(w: Seq<char>) -> bool {
    ||| w == seq!['t', 'r', 'u', 'e']
    ||| w == seq!['f', 'a', 'l', 's', 'e']
    ||| w == seq!['n', 'u', 'l', 'l']
}

proof fn lemma_json_word_letters(w: Seq<char>)
    requires
        json_word(w),
    ensures
        w.len() >= 4,
        forall|j: int| 0 <= j < w.len() ==> is_alpha(#[trigger] w[j]),
{
    assert(is_alpha('t') && is_alpha('r') && is_alpha('u') && is_alpha('e'));
    assert(is_alpha('f') && is_alpha('a') && is_alpha('l') && is_alpha('s'));
    assert(is_alpha('n'));
}

/// Law: a run of letters starting at `i` that spells `true`, `false` or
/// `null` and is not followed by another letter is one token of kind
/// `Literal`, and that run exactly.
pub proof fn lemma_literal_word_token(s: Seq<char>, i: int, w: Seq<char>)
    requires
        json_word(w),
        0 <= i,
        i + w.len() <= s.len(),
        s.subrange(i, i + w.len()) == w,
        i + w.len() == s.len() || !is_alpha(s[i + w.len()]),
    ensures
        token_at(s, i) == (i + w.len(), Kind::Literal),
{
    lemma_json_word_letters(w);
    let e = i + w.len();
    assert(s[i] == w[0]);
    assert(!is_digit(w[0])) by {
        assert(!is_digit('t') && !is_digit('f') && !is_digit('n'));
    }
    lemma_run_end_bounds(s, i, |x: char| is_alpha(x));
    let r = run_end(s, i, |x: char| is_alpha(x));
    assert forall|j: int| i <= j < e implies is_alpha(#[trigger] s[j]) by {
        assert(s[j] == w[j - i]);
    }
    lemma_run_end_reaches(s, i, e, |x: char| is_alpha(x));
    assert(r == e);
    assert(s.subrange(i, e) == w);
}

proof fn lemma_run_end_reaches(s: Seq<char>, i: int, e: int, p: spec_fn(char) -> bool)
    requires
        0 <= i <= e <= s.len(),
        forall|j: int| i <= j < e ==> p(#[trigger] s[j]),
        e == s.len() || !p(s[e]),
    ensures
        run_end(s, i, p) == e,
    decreases e - i,
{
    if i < e {
        lemma_run_end_reaches(s, i + 1, e, p);
    }
}

/// Law: in the tokens of a line, a token whose text is `true`, `false` or
/// `null` is a literal, a literal's text is one of those words, and exactly
/// the literals are highlighted as keywords.
pub proof fn lemma_literal_tokens(s: Seq<char>, k: int)
    requires
        s.len() <= usize::MAX,
        0 <= k < spec_tokenize(s).len(),
    ensures
        ({
            let t = spec_tokenize(s)[k];
            let w = s.subrange(t.start as int, t.end as int);
            &&& json_word(w) ==> t.kind == Kind::Literal
            &&& t.kind == Kind::Literal ==> json_word(w)
            &&& (style_of(spec_tokenize(s), k, s) == SynStyle::Keyword) == (t.kind == Kind::Literal)
        }),
{
    lemma_tokens_from_token_at(s, 0, k);
    let t = spec_tokenize(s)[k];
    let i = t.start as int;
    let w = s.subrange(i, t.end as int);
    lemma_run_end_bounds(s, i, |x: char| is_alpha(x));
    if json_word(w) {
        lemma_json_word_letters(w);
        let e = t.end as int;
        // The token is a maximal run of letters, so it cannot be followed by one.
        if e < s.len() && is_alpha(s[e]) {
            assert(s[i] == w[0]);
            assert(!is_digit(w[0]) && w[0] != '"' && w[0] != '/' && w[0] != '-' && !is_ws(w[0]))
                by {
                assert(!is_digit('t') && !is_digit('f') && !is_digit('n'));
            }
            assert forall|j: int| i <= j < e implies is_alpha(#[trigger] s[j]) by {
                assert(s[j] == w[j - i]);
            }
            assert(run_end(s, i, |x: char| is_alpha(x)) == e);
            assert(false);
        }
        lemma_literal_word_token(s, i, w);
    }
}

/// Law: what a token is follows from its first character: blanks make a
/// blank run (as long as possible), a quote a string, `//` a comment to the
/// end of the line, a digit a number, JSON punctuation a one-character
/// punctuation token, and a letter a word (literal or not).
pub proof fn lemma_token_kinds(s: Seq<char>, k: int)
    requires
        s.len() <= usize::MAX,
        0 <= k < spec_tokenize(s).len(),
    ensures
        ({
            let t = spec_tokenize(s)[k];
            let i = t.start as int;
            let e = t.end as int;
            let c = s[i];
            &&& is_ws(c) ==> t.kind == Kind::Ws && (forall|j: int| i <= j < e ==> is_ws(
                #[trigger] s[j],
            )) && (e == s.len() || !is_ws(s[e]))
            &&& c == '"' ==> t.kind == Kind::Str
            &&& c == '/' && i + 1 < s.len() && s[i + 1] == '/' ==> t.kind == Kind::Comment && e
                == s.len()
            &&& is_digit(c) ==> t.kind == Kind::Number
            &&& is_punct(c) ==> t.kind == Kind::Punct && e == i + 1
            &&& is_alpha(c) ==> (t.kind == Kind::Literal || t.kind == Kind::Other) && (forall|j: int|
                i <= j < e ==> is_alpha(#[trigger] s[j])) && (e == s.len() || !is_alpha(s[e]))
            &&& t.kind == Kind::Ws ==> is_ws(c)
            &&& t.kind == Kind::Str ==> c == '"'
            &&& t.kind == Kind::Punct ==> is_punct(c)
            &&& t.kind == Kind::Literal ==> is_alpha(c)
        }),
{
    lemma_tokens_from_token_at(s, 0, k);
    let t = spec_tokenize(s)[k];
    let i = t.start as int;
    lemma_run_end_bounds(s, i, |x: char| is_ws(x));
    lemma_run_end_bounds(s, i, |x: char| is_alpha(x));
    let c = s[i];
    assert(is_ws(c) ==> c != '"' && c != '/' && !is_digit(c) && c != '-' && !is_alpha(c)
        && !is_punct(c));
    assert(is_punct(c) ==> !is_digit(c) && !is_alpha(c) && c != '-');
}

fn is_ws_char(c: char) -> (b: bool)
    ensures
        b == is_ws(c),
{
    c == ' ' || c == '\t'
}

fn is_digit_char(c: char) -> (b: bool)
    ensures
        b == is_digit(c),
{
    let u = c as u32;
    48 <= u && u <= 57
}

fn is_alpha_char(c: char) -> (b: bool)
    ensures
        b == is_alpha(c),
{
    let u = c as u32;
    (65 <= u && u <= 90) || (97 <= u && u <= 122)
}

fn is_number_tail_char(c: char) -> (b: bool)
    ensures
        b == is_number_tail(c),
{
    is_digit_char(c) || c == '.' || c == 'e' || c == 'E' || c == '+' || c == '-'
}

fn is_punct_char(c: char) -> (b: bool)
    ensures
        b == is_punct(c),
{
    c == '{' || c == '}' || c == '[' || c == ']' || c == ':' || c == ','
}

fn is_literal(chars: &[char], start: usize, end: usize) -> (b: bool)
    requires
        start <= end <= chars@.len(),
    ensures
        b == is_literal_word(chars@.subrange(start as int, end as int)),
{
    let ghost w = chars@.subrange(start as int, end as int);
    let n = end - start;
    assert(forall|k: int| 0 <= k < w.len() ==> w[k] == chars@[start + k]);
    if n == 4 && chars[start] == 't' && chars[start + 1] == 'r' && chars[start + 2] == 'u'
        && chars[start + 3] == 'e' {
        assert(w =~= seq!['t', 'r', 'u', 'e']);
        true
    } else if n == 5 && chars[start] == 'f' && chars[start + 1] == 'a' && chars[start + 2] == 'l'
        && chars[start + 3] == 's' && chars[start + 4] == 'e' {
        assert(w =~= seq!['f', 'a', 'l', 's', 'e']);
        true
    } else if n == 4 && chars[start] == 'n' && chars[start + 1] == 'u' && chars[start + 2] == 'l'
        && chars[start + 3] == 'l' {
        assert(w =~= seq!['n', 'u', 'l', 'l']);
        true
    } else {
        proof {
            let t1 = seq!['t', 'r', 'u', 'e'];
            let t2 = seq!['f', 'a', 'l', 's', 'e'];
            let t3 = seq!['n', 'u', 'l', 'l'];
            assert(t1.len() == 4 && t1[0] == 't' && t1[1] == 'r' && t1[2] == 'u' && t1[3] == 'e');
            assert(t2.len() == 5 && t2[0] == 'f' && t2[1] == 'a' && t2[2] == 'l' && t2[3] == 's'
                && t2[4] == 'e');
            assert(t3.len() == 4 && t3[0] == 'n' && t3[1] == 'u' && t3[2] == 'l' && t3[3] == 'l');
            if w == seq!['t', 'r', 'u', 'e'] {
                assert(w[0] == 't' && w[1] == 'r' && w[2] == 'u' && w[3] == 'e');
            }
            if w == seq!['f', 'a', 'l', 's', 'e'] {
                assert(w[0] == 'f' && w[1] == 'a' && w[2] == 'l' && w[3] == 's' && w[4] == 'e');
            }
            if w == seq!['n', 'u', 'l', 'l'] {
                assert(w[0] == 'n' && w[1] == 'u' && w[2] == 'l' && w[3] == 'l');
            }
        }
        false
    }
}

/// Cuts a line into tokens: runs of blanks, strings (with backslash escapes,
/// possibly unterminated), `//` comments to the end of the line, numbers
/// (a digit, or `-` before a digit, followed by digits and `.eE+-`), words
/// (`true`, `false`, `null` are literals), JSON punctuation, and any other
/// single character.
pub fn tokenize(chars: &[char]) -> (out: Vec<Tok>)
    ensures
        out@ == spec_tokenize(chars@),
{
    let mut out: Vec<Tok> = Vec::new();
    let mut i: usize = 0;
    let n = chars.len();
    let ghost s = chars@;
    while i < n
        invariant
            n == s.len(),
            s == chars@,
            i <= n,
            out@ + tokens_from(s, i as int) == spec_tokenize(s),
        decreases n - i,
    {
        let c = chars[i];
        let start = i;
        proof {
            lemma_token_at_bounds(s, i as int);
        }
        let ghost te = token_at(s, i as int);
        if is_ws_char(c) {
            while i < n && is_ws_char(chars[i])
                invariant
                    start <= i <= n,
                    n == s.len(),
                    s == chars@,
                    run_end(s, start as int, |x: char| is_ws(x)) == run_end(
                        s,
                        i as int,
                        |x: char| is_ws(x),
                    ),
                decreases n - i,
            {
                i = i + 1;
            }
            out.push(Tok { start, end: i, kind: Kind::Ws });
        } else if c == '"' {
            i = i + 1;
            let ghost e0 = string_end(s, i as int);
            proof {
                lemma_string_end_bounds(s, i as int);
                lemma_string_end_le(s, i as int);
            }
            let mut closed = false;
            while i < n && !closed
                invariant
                    start < i <= n,
                    n == s.len(),
                    s == chars@,
                    e0 <= n + 1,
                    closed ==> i == e0,
                    !closed ==> (string_end(s, i as int) == e0 || (i == n && e0 == n + 1)),
                decreases n - i,
            {
                if chars[i] == '\\' {
                    if i + 1 < n {
                        i = i + 2;
                    } else {
                        assert(string_end(s, i + 2) == i + 2);
                        i = n;
                    }
                } else if chars[i] == '"' {
                    i = i + 1;
                    closed = true;
                } else {
                    i = i + 1;
                }
            }
            let end = i;
            out.push(Tok { start, end, kind: Kind::Str });
        } else if c == '/' && i + 1 < n && chars[i + 1] == '/' {
            out.push(Tok { start: i, end: n, kind: Kind::Comment });
            i = n;
        } else if is_digit_char(c) || (c == '-' && i + 1 < n && is_digit_char(chars[i + 1])) {
            i = i + 1;
            while i < n && is_number_tail_char(chars[i])
                invariant
                    start < i <= n,
                    n == s.len(),
                    s == chars@,
                    run_end(s, start + 1, |x: char| is_number_tail(x)) == run_end(
                        s,
                        i as int,
                        |x: char| is_number_tail(x),
                    ),
                decreases n - i,
            {
                i = i + 1;
            }
            out.push(Tok { start, end: i, kind: Kind::Number });
        } else if is_alpha_char(c) {
            while i < n && is_alpha_char(chars[i])
                invariant
                    start <= i <= n,
                    n == s.len(),
                    s == chars@,
                    run_end(s, start as int, |x: char| is_alpha(x)) == run_end(
                        s,
                        i as int,
                        |x: char| is_alpha(x),
                    ),
                decreases n - i,
            {
                i = i + 1;
            }
            let kind = if is_literal(chars, start, i) {
                Kind::Literal
            } else {
                Kind::Other
            };
            out.push(Tok { start, end: i, kind });
        } else if is_punct_char(c) {
            out.push(Tok { start: i, end: i + 1, kind: Kind::Punct });
            i = i + 1;
        } else {
            out.push(Tok { start: i, end: i + 1, kind: Kind::Other });
            i = i + 1;
        }
        proof {
            let t = out@.last();
            assert(t.start == start && t.end as int == te.0 && t.kind == te.1);
            assert(tokens_from(s, start as int) =~= seq![t] + tokens_from(s, te.0));
            assert(out@ + tokens_from(s, i as int) =~= out@.drop_last() + tokens_from(
                s,
                start as int,
            ));
        }
    }
    proof {
        assert(tokens_from(s, i as int) =~= Seq::<Tok>::empty());
        assert(out@ + Seq::<Tok>::empty() =~= out@);
    }
    out
}

/// Whether the first token at or after index `j` that is not blank is
/// punctuation whose character is `:`.
pub open spec fn colon_follows(toks: Seq<Tok>, j: int, chars: Seq<char>) -> bool
    decreases toks.len() - j,
{
    if j < 0 || j >= toks.len() {
        false
    } else {
        match toks[j].kind {
            Kind::Ws => colon_follows(toks, j + 1, chars),
            Kind::Punct => toks[j].start < chars.len() && chars[toks[j].start as int] == ':',
            _ => false,
        }
    }
}

/// Token `m` is a `:` and only blanks lie between token `j` (included) and it.
pub open spec fn colon_at_after_blanks(toks: Seq<Tok>, j: int, m: int, chars: Seq<char>) -> bool {
    &&& j <= m < toks.len()
    &&& toks[m].kind == Kind::Punct
    &&& toks[m].start < chars.len()
    &&& chars[toks[m].start as int] == ':'
    &&& forall|x: int| j <= x < m ==> (#[trigger] toks[x]).kind == Kind::Ws
}

proof fn lemma_colon_follows_exists(toks: Seq<Tok>, j: int, chars: Seq<char>)
    requires
        0 <= j,
    ensures
        colon_follows(toks, j, chars) <==> exists|m: int| #[trigger] colon_at_after_blanks(toks, j, m, chars),
    decreases toks.len() - j,
{
    if j < toks.len() {
        if toks[j].kind == Kind::Ws {
            lemma_colon_follows_exists(toks, j + 1, chars);
            if colon_follows(toks, j, chars) {
                let m = choose|m: int| #[trigger] colon_at_after_blanks(toks, j + 1, m, chars);
                assert(colon_at_after_blanks(toks, j, m, chars));
            }
            if exists|m: int| #[trigger] colon_at_after_blanks(toks, j, m, chars) {
                let m = choose|m: int| #[trigger] colon_at_after_blanks(toks, j, m, chars);
                assert(m != j);
                assert(colon_at_after_blanks(toks, j + 1, m, chars));
            }
        } else {
            if toks[j].kind == Kind::Punct && toks[j].start < chars.len() && chars[toks[j].start as int] == ':' {
                assert(colon_at_after_blanks(toks, j, j, chars));
            }
            if exists|m: int| #[trigger] colon_at_after_blanks(toks, j, m, chars) {
                let m = choose|m: int| #[trigger] colon_at_after_blanks(toks, j, m, chars);
                if m > j {
                    assert(toks[j].kind == Kind::Ws);
                }
            }
        }
    }
}

/// Law: a string is highlighted as an object key exactly when the next
/// token that is not blank is a `:`; otherwise it is highlighted as a
/// string value.
pub proof fn lemma_key_strings(toks: Seq<Tok>, k: int, chars: Seq<char>)
    requires
        0 <= k < toks.len(),
        toks[k].kind == Kind::Str,
    ensures
        (style_of(toks, k, chars) == SynStyle::Key) <==> exists|m: int| #[trigger] colon_at_after_blanks(
            toks,
            k + 1,
            m,
            chars,
        ),
        style_of(toks, k, chars) == SynStyle::Key || style_of(toks, k, chars) == SynStyle::StringLit,
{
    lemma_colon_follows_exists(toks, k + 1, chars);
}

/// Whether the token after `from` (skipping blanks) is a `:` — that is,
/// whether the string token at `from` is an object key.
pub fn next_is_colon(toks: &[Tok], from: usize, chars: &[char]) -> (b: bool)
    requires
        from < toks@.len(),
    ensures
        b == colon_follows(toks@, from + 1, chars@),
{
    let n = toks.len();
    let mut j = from + 1;
    while j < n
        invariant
            from < j <= toks@.len(),
            n == toks@.len(),
            colon_follows(toks@, j as int, chars@) == colon_follows(toks@, from + 1, chars@),
        decreases toks@.len() - j,
    {
        let t = toks[j];
        match t.kind {
            Kind::Ws => {
                j = j + 1;
            },
            Kind::Punct => {
                return t.start < chars.len() && chars[t.start] == ':';
            },
            _ => {
                return false;
            },
        }
    }
    false
}

/// The highlight style of token `k`: strings followed by `:` are keys.
pub open spec fn style_of(toks: Seq<Tok>, k: int, chars: Seq<char>) -> SynStyle {
    match toks[k].kind {
        Kind::Str => if colon_follows(toks, k + 1, chars) {
            SynStyle::Key
        } else {
            SynStyle::StringLit
        },
        Kind::Number => SynStyle::Number,
        Kind::Literal => SynStyle::Keyword,
        Kind::Punct => SynStyle::Punct,
        Kind::Comment => SynStyle::Comment,
        Kind::Ws | Kind::Other => SynStyle::Plain,
    }
}

/// The visible pieces of tokens `k..` when the first `scroll_col` columns are
/// scrolled away: tokens that end at or before the scroll offset are dropped,
/// and a token that straddles it keeps only its part from the offset on.
pub open spec fn pieces_from(chars: Seq<char>, toks: Seq<Tok>, k: int, scroll_col: int) -> Seq<
    (Seq<char>, SynStyle),
>
    decreases toks.len() - k,
{
    if k < 0 || k >= toks.len() {
        Seq::empty()
    } else {
        let t = toks[k];
        if t.end <= scroll_col {
            pieces_from(chars, toks, k + 1, scroll_col)
        } else {
            let from = if t.start < scroll_col { scroll_col } else { t.start as int };
            seq![(chars.subrange(from, t.end as int), style_of(toks, k, chars))] + pieces_from(
                chars,
                toks,
                k + 1,
                scroll_col,
            )
        }
    }
}

/// The highlighted pieces of a whole line.
pub open spec fn spec_highlight(chars: Seq<char>, scroll_col: int) -> Seq<(Seq<char>, SynStyle)> {
    pieces_from(chars, spec_tokenize(chars), 0, scroll_col)
}

/// The characters `[from, to)` of `chars` as a string.
fn collect_range(chars: &[char], from: usize, to: usize) -> (r: String)
    requires
        from <= to <= chars@.len(),
    ensures
        r@ == chars@.subrange(from as int, to as int),
{
    let mut r = String::new();
    let mut i = from;
    while i < to
        invariant
            from <= i <= to,
            to <= chars@.len(),
            r@ == chars@.subrange(from as int, i as int),
        decreases to - i,
    {
        r.push(chars[i]);
        assert(chars@.subrange(from as int, i + 1) =~= chars@.subrange(from as int, i as int).push(
            chars@[i as int],
        ));
        i = i + 1;
    }
    r
}

/// Highlights one line: each token that reaches past the horizontal scroll
/// offset `scroll_col` gives a piece of text (its part right of the offset)
/// with the style of its class; strings directly followed by `:` are keys.
pub fn highlight_json_line(line: &[char], scroll_col: usize) -> (spans: Vec<HlSpan>)
    ensures
        spans@.len() == spec_highlight(line@, scroll_col as int).len(),
        forall|i: int|
            0 <= i < spans@.len() ==> (#[trigger] spans@[i]).text@ == spec_highlight(
                line@,
                scroll_col as int,
            )[i].0 && spans@[i].style == spec_highlight(line@, scroll_col as int)[i].1,
{
    let mut spans: Vec<HlSpan> = Vec::new();
    if line.len() == 0 {
        assert(spec_tokenize(line@) =~= Seq::<Tok>::empty());
        return spans;
    }
    let toks = tokenize(line);
    proof {
        lemma_tokenize_partitions(line@);
    }
    let ghost spec = spec_highlight(line@, scroll_col as int);
    let mut k: usize = 0;
    while k < toks.len()
        invariant
            k <= toks@.len(),
            toks@ == spec_tokenize(line@),
            covers(line@, toks@, 0),
            spec == spec_highlight(line@, scroll_col as int),
            spans@.len() + pieces_from(line@, toks@, k as int, scroll_col as int).len()
                == spec.len(),
            forall|i: int|
                0 <= i < spans@.len() ==> (#[trigger] spans@[i]).text@ == spec[i].0
                    && spans@[i].style == spec[i].1,
            forall|i: int|
                0 <= i < pieces_from(line@, toks@, k as int, scroll_col as int).len() ==> spec[i
                    + spans@.len()] == #[trigger] pieces_from(
                    line@,
                    toks@,
                    k as int,
                    scroll_col as int,
                )[i],
        decreases toks@.len() - k,
    {
        let t = toks[k];
        assert(t.start < t.end <= line@.len());
        let ghost rest = pieces_from(line@, toks@, k + 1, scroll_col as int);
        if t.end > scroll_col {
            let from = if t.start < scroll_col {
                scroll_col
            } else {
                t.start
            };
            let text = collect_range(line, from, t.end);
            let style = match t.kind {
                Kind::Str => if next_is_colon(toks.as_slice(), k, line) {
                    SynStyle::Key
                } else {
                    SynStyle::StringLit
                },
                Kind::Number => SynStyle::Number,
                Kind::Literal => SynStyle::Keyword,
                Kind::Punct => SynStyle::Punct,
                Kind::Comment => SynStyle::Comment,
                Kind::Ws | Kind::Other => SynStyle::Plain,
            };
            let ghost old_len = spans@.len();
            spans.push(HlSpan { text, style });
            proof {
                let cur = pieces_from(line@, toks@, k as int, scroll_col as int);
                assert(cur[0] == spec[old_len as int]);
                assert forall|i: int| 0 <= i < rest.len() implies spec[i + spans@.len()]
                    == #[trigger] rest[i] by {
                    assert(cur[i + 1] == rest[i]);
                }
            }
        }
        k = k + 1;
    }
    spans
}

/// The pieces' texts one after the other.
pub open spec fn pieces_text(ps: Seq<(Seq<char>, SynStyle)>) -> Seq<char>
    decreases ps.len(),
{
    if ps.len() == 0 {
        Seq::empty()
    } else {
        ps[0].0 + pieces_text(ps.drop_first())
    }
}

proof fn lemma_pieces_from_text(s: Seq<char>, toks: Seq<Tok>, k: int, sc: int)
    requires
        covers(s, toks, 0),
        0 <= k <= toks.len(),
        sc >= 0,
    ensures
        ({
            let p = if k < toks.len() { toks[k].start as int } else { s.len() as int };
            let from = if p < sc { if sc < s.len() { sc } else { s.len() as int } } else { p };
            pieces_text(pieces_from(s, toks, k, sc)) == s.subrange(from, s.len() as int)
        }),
    decreases toks.len() - k,
{
    if k < toks.len() {
        lemma_pieces_from_text(s, toks, k + 1, sc);
        let t = toks[k];
        assert(t.start < t.end <= s.len());
        if k + 1 < toks.len() {
            assert(toks[k].end == toks[k + 1].start);
        }
        let rest = pieces_from(s, toks, k + 1, sc);
        if t.end > sc {
            let from = if t.start < sc { sc } else { t.start as int };
            let ps = pieces_from(s, toks, k, sc);
            assert(ps.drop_first() =~= rest);
            assert(s.subrange(from, t.end as int) + s.subrange(t.end as int, s.len() as int)
                =~= s.subrange(from, s.len() as int));
        }
    } else {
        assert(s.subrange(s.len() as int, s.len() as int) =~= Seq::<char>::empty());
    }
}

/// Law: the highlighted pieces of a line, read one after the other, are
/// exactly the line's text from the scroll column on.
pub proof fn lemma_highlight_shows_line(s: Seq<char>, scroll_col: nat)
    requires
        s.len() <= usize::MAX,
    ensures
        pieces_text(spec_highlight(s, scroll_col as int)) == s.subrange(
            if scroll_col < s.len() { scroll_col as int } else { s.len() as int },
            s.len() as int,
        ),
{
    lemma_tokenize_partitions(s);
    lemma_pieces_from_text(s, spec_tokenize(s), 0, scroll_col as int);
    if spec_tokenize(s).len() > 0 {
        assert(spec_tokenize(s)[0].start == 0);
    }
}

} // verus!
