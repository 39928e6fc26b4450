//! Character-indexed helpers over UTF-8 strings.
//!
//! Columns in the editor count Unicode scalar values, not bytes; these
//! helpers convert between the two and cut strings by character position.
use vstd::prelude::*;
use vstd::utf8::*;

verus! {

broadcast use vstd::string::group_string_axioms;

/// Number of UTF-8 bytes needed to encode `c`.
pub open spec fn utf8_width(c: char) -> nat {
    let u = c as u32;
    if u < 0x80 {
        1
    } else if u < 0x800 {
        2
    } else if u < 0x10000 {
        3
    } else {
        4
    }
}

/// Number of UTF-8 bytes needed to encode the characters `s`.
pub open spec fn utf8_len(s: Seq<char>) -> nat
    decreases s.len(),
{
    if s.len() == 0 {
        0
    } else {
        utf8_len(s.drop_last()) + utf8_width(s.last())
    }
}

/// `col` clamped to the length of `s`.
pub open spec fn clamp_col(s: Seq<char>, col: int) -> int {
    if col < s.len() {
        col
    } else {
        s.len() as int
    }
}

/// The characters `[from, to)` of `s`, both ends clamped to `s`, empty when `to <= from`.
pub open spec fn spec_substr(s: Seq<char>, from: int, to: int) -> Seq<char> {
    let a = clamp_col(s, from);
    let b = clamp_col(s, if to < from { from } else { to });
    s.subrange(a, b)
}

/// The characters of `s` from `from` on (empty when `from` is past the end).
pub open spec fn spec_substr_from(s: Seq<char>, from: int) -> Seq<char> {
    s.subrange(clamp_col(s, from), s.len() as int)
}

/// Number of decimal digits of `n`.
pub open spec fn decimal_digits(n: nat) -> nat
    decreases n,
{
    if n < 10 {
        1
    } else {
        1 + decimal_digits(n / 10)
    }
}

/// Law: cutting a text at any column into the part before it (`substr`
/// from 0) and the part from it on (`substr_from`) loses and adds nothing;
/// a range inside the text has `to - from` characters, those of the text.
pub proof fn lemma_substr_pieces(s: Seq<char>, from: int, to: int)
    requires
        0 <= from,
    ensures
        spec_substr(s, 0, from) + spec_substr_from(s, from) == s,
        from <= to <= s.len() ==> spec_substr(s, from, to).len() == to - from,
        from <= to <= s.len() ==> forall|j: int|
            0 <= j < to - from ==> #[trigger] spec_substr(s, from, to)[j] == s[from + j],
        to <= from ==> spec_substr(s, from, to).len() == 0,
        from >= s.len() ==> spec_substr_from(s, from).len() == 0,
{
    assert(spec_substr(s, 0, from) + spec_substr_from(s, from) =~= s);
}

/// Law: the number of decimal digits grows with the number: numbers below
/// ten have one digit, and `d` digits cover exactly the numbers whose tenth
/// part has `d - 1`.
pub proof fn lemma_decimal_digits_monotone(m: nat, n: nat)
    requires
        m <= n,
    ensures
        decimal_digits(m) <= decimal_digits(n),
        decimal_digits(n) >= 1,
        (n < 10) == (decimal_digits(n) == 1),
        n >= 10 ==> decimal_digits(n) == decimal_digits(n / 10) + 1,
    decreases n,
{
    if n >= 10 {
        if m >= 10 {
            lemma_decimal_digits_monotone(m / 10, n / 10);
        } else {
            lemma_decimal_digits_monotone(0, n / 10);
        }
    }
}

proof fn lemma_encode_scalar_len(c: char)
    ensures
        encode_scalar(c as u32).len() == utf8_width(c),
{
    broadcast use char_is_scalar;

    assert(is_scalar(c as u32));
}

proof fn lemma_encode_utf8_concat(a: Seq<char>, b: Seq<char>)
    ensures
        encode_utf8(a + b) == encode_utf8(a) + encode_utf8(b),
    decreases a.len(),
{
    if a.len() == 0 {
        assert(a + b =~= b);
    } else {
        lemma_encode_utf8_concat(a.drop_first(), b);
        assert((a + b).drop_first() =~= a.drop_first() + b);
    }
}

/// The byte length of the UTF-8 encoding agrees with `utf8_len`.
pub proof fn lemma_utf8_len_encode(s: Seq<char>)
    ensures
        encode_utf8(s).len() == utf8_len(s),
    decreases s.len(),
{
    if s.len() > 0 {
        let init = s.drop_last();
        lemma_utf8_len_encode(init);
        lemma_encode_utf8_concat(init, seq![s.last()]);
        assert(init + seq![s.last()] =~= s);
        lemma_encode_scalar_len(s.last());
        assert(seq![s.last()].drop_first() =~= Seq::<char>::empty());
        assert(encode_utf8(seq![s.last()]) == encode_scalar(s.last() as u32) + encode_utf8(
            Seq::<char>::empty(),
        ));
    }
}

proof fn lemma_utf8_len_prefix_mono(s: Seq<char>, i: int, j: int)
    requires
        0 <= i <= j <= s.len(),
    ensures
        utf8_len(s.take(i)) <= utf8_len(s.take(j)),
    decreases j - i,
{
    if i < j {
        lemma_utf8_len_prefix_mono(s, i, j - 1);
        assert(s.take(j).drop_last() =~= s.take(j - 1));
    }
}

/// Width in bytes of the UTF-8 encoding of `c`.
fn char_width(c: char) -> (w: usize)
    ensures
        w == utf8_width(c),
{
    let u = c as u32;
    if u < 0x80 {
        1
    } else if u < 0x800 {
        2
    } else if u < 0x10000 {
        3
    } else {
        4
    }
}

/// Number of characters (Unicode scalar values) in `s`.
pub fn char_len(s: &str) -> (n: usize)
    ensures
        n == s@.len(),
{
    s.unicode_len()
}

/// Byte offset of character column `col` in `s`; the byte length of `s` when
/// `col` is at or past the end.
pub fn byte_idx(s: &str, col: usize) -> (b: usize)
    ensures
        b == utf8_len(s@.take(clamp_col(s@, col as int))),
        col >= s@.len() ==> b == encode_utf8(s@).len(),
{
    let bytes = s.as_bytes();
    let total = bytes.len();
    let n = s.unicode_len();
    proof {
        lemma_utf8_len_encode(s@);
        assert(s@.take(s@.len() as int) =~= s@);
    }
    let ghost target = clamp_col(s@, col as int);
    let mut b: usize = 0;
    let mut i: usize = 0;
    for c in it: s.chars()
        invariant
            it.seq() == s@,
            i == it.index(),
            i <= n,
            n == s@.len(),
            total == utf8_len(s@),
            target == clamp_col(s@, col as int),
            i <= target ==> b == utf8_len(s@.take(i as int)),
            i > target ==> b == utf8_len(s@.take(target)),
    {
        if i < col {
            proof {
                lemma_utf8_len_prefix_mono(s@, i + 1, s@.len() as int);
                assert(s@.take(i + 1).drop_last() =~= s@.take(i as int));
                assert(c == s@[i as int]);
                assert(s@.take(s@.len() as int) =~= s@);
                assert(utf8_len(s@.take(i + 1)) == b + utf8_width(c));
            }
            b = b + char_width(c);
        }
        i = i + 1;
    }
    b
}

/// Characters `[from, to)` of `s`, clamped to its length; empty when `to <= from`.
pub fn substr(s: &str, from: usize, to: usize) -> (r: String)
    ensures
        r@ == spec_substr(s@, from as int, to as int),
{
    let mut r = String::new();
    let mut i: usize = 0;
    let n = s.unicode_len();
    let ghost a = clamp_col(s@, from as int);
    let ghost e = clamp_col(s@, if to < from { from as int } else { to as int });
    for c in it: s.chars()
        invariant
            it.seq() == s@,
            i == it.index(),
            i <= n,
            n == s@.len(),
            a == clamp_col(s@, from as int),
            e == clamp_col(s@, if to < from { from as int } else { to as int }),
            r@ == s@.subrange(a, if i <= a { a } else if i <= e { i as int } else { e }),
    {
        if from <= i && i < to {
            r.push(c);
        }
        proof {
            let j = i + 1;
            assert(s@.subrange(a, if j <= a { a } else if j <= e { j as int } else { e })
                =~= s@.subrange(a, if i <= a { a } else if i <= e { i as int } else { e }) + if from <= i
                && i < to {
                seq![c]
            } else {
                Seq::<char>::empty()
            });
        }
        i = i + 1;
    }
    r
}

/// The characters of `s` from `from` on.
pub fn substr_from(s: &str, from: usize) -> (r: String)
    ensures
        r@ == spec_substr_from(s@, from as int),
{
    let mut r = String::new();
    let mut i: usize = 0;
    let n = s.unicode_len();
    let ghost a = clamp_col(s@, from as int);
    for c in it: s.chars()
        invariant
            it.seq() == s@,
            i == it.index(),
            i <= n,
            n == s@.len(),
            a == clamp_col(s@, from as int),
            r@ == s@.subrange(a, if i <= a { a } else { i as int }),
    {
        if from <= i {
            r.push(c);
        }
        proof {
            let j = i + 1;
            assert(s@.subrange(a, if j <= a { a } else { j as int }) =~= s@.subrange(
                a,
                if i <= a { a } else { i as int },
            ) + if from <= i {
                seq![c]
            } else {
                Seq::<char>::empty()
            });
        }
        i = i + 1;
    }
    r
}

/// Number of decimal digits of `n`, but at least two (the width of the line-number gutter).
pub fn digit_count(n: usize) -> (d: usize)
    ensures
        d == if decimal_digits(n as nat) < 2 { 2 } else { decimal_digits(n as nat) },
{
    let mut d: usize = 1;
    let mut v = n;
    while v >= 10
        invariant
            d + decimal_digits(v as nat) == 1 + decimal_digits(n as nat),
            d + v <= n + 1,
            d >= 1,
        decreases v,
    {
        v = v / 10;
        d = d + 1;
    }
    if d < 2 {
        2
    } else {
        d
    }
}

/// Whether `a` and `b` hold the same characters.
pub fn str_eq(a: &str, b: &str) -> (r: bool)
    ensures
        r == (a@ == b@),
{
    let n = a.unicode_len();
    let m = b.unicode_len();
    if n != m {
        return false;
    }
    let mut i: usize = 0;
    while i < n
        invariant
            i <= n,
            n == a@.len(),
            m == b@.len(),
            n == m,
            forall|k: int| 0 <= k < i ==> a@[k] == b@[k],
        decreases n - i,
    {
        if a.get_char(i) != b.get_char(i) {
            return false;
        }
        i = i + 1;
    }
    assert(a@ =~= b@);
    true
}

} // verus!
