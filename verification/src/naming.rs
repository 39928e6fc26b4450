//! Picking fresh names: `base`, `base_2`, `base_3`, ... — the first candidate
//! not already taken.
use vstd::prelude::*;
use vstd::relations::injective_on;
use vstd::set_lib::{lemma_int_range, lemma_len_subset, lemma_map_size, set_int_range};

verus! {

broadcast use vstd::string::group_string_axioms;

pub open spec fn digit_char(d: nat) -> char {
    if d == 0 {
        '0'
    } else if d == 1 {
        '1'
    } else if d == 2 {
        '2'
    } else if d == 3 {
        '3'
    } else if d == 4 {
        '4'
    } else if d == 5 {
        '5'
    } else if d == 6 {
        '6'
    } else if d == 7 {
        '7'
    } else if d == 8 {
        '8'
    } else {
        '9'
    }
}

pub open spec fn digit_value(c: char) -> nat {
    if c == '1' {
        1
    } else if c == '2' {
        2
    } else if c == '3' {
        3
    } else if c == '4' {
        4
    } else if c == '5' {
        5
    } else if c == '6' {
        6
    } else if c == '7' {
        7
    } else if c == '8' {
        8
    } else if c == '9' {
        9
    } else {
        0
    }
}

/// Decimal representation of `n` (no leading zeros).
pub open spec fn decimal(n: nat) -> Seq<char>
    decreases n,
{
    if n < 10 {
        seq![digit_char(n)]
    } else {
        decimal(n / 10).push(digit_char(n % 10))
    }
}

pub open spec fn decimal_value(s: Seq<char>) -> nat
    decreases s.len(),
{
    if s.len() == 0 {
        0
    } else {
        decimal_value(s.drop_last()) * 10 + digit_value(s.last())
    }
}

/// Candidate number `n`: `prefix` + `_n` + `suffix`, except that with
/// `bare_first` the first candidate is just `prefix` + `suffix`.
pub open spec fn candidate(prefix: Seq<char>, suffix: Seq<char>, bare_first: bool, n: nat) -> Seq<
    char,
> {
    if n == 1 && bare_first {
        prefix + suffix
    } else {
        prefix + seq!['_'] + decimal(n) + suffix
    }
}

pub open spec fn names(v: Seq<String>) -> Seq<Seq<char>> {
    v.map_values(|s: String| s@)
}

/// `r` is the first candidate from number `start` on that is not taken.
pub open spec fn first_free(
    r: Seq<char>,
    taken: Seq<Seq<char>>,
    prefix: Seq<char>,
    suffix: Seq<char>,
    bare_first: bool,
    start: nat,
) -> bool {
    exists|n: nat|
        #![trigger candidate(prefix, suffix, bare_first, n)]
        n >= start && r == candidate(prefix, suffix, bare_first, n) && !taken.contains(
            candidate(prefix, suffix, bare_first, n),
        ) && forall|m: nat|
            start <= m < n ==> taken.contains(#[trigger] candidate(prefix, suffix, bare_first, m))
}

/// Law: a name chosen as the first free candidate is not taken, starts with
/// the prefix and ends with the suffix; with `bare_first` and numbering from
/// 1, a free `prefix + suffix` is chosen as it is; and any name the rule
/// accepts is the only one (the choice is determined).
pub proof fn lemma_first_free_is_fresh(
    r: Seq<char>,
    r2: Seq<char>,
    taken: Seq<Seq<char>>,
    prefix: Seq<char>,
    suffix: Seq<char>,
    bare_first: bool,
    start: nat,
)
    requires
        first_free(r, taken, prefix, suffix, bare_first, start),
    ensures
        !taken.contains(r),
        r.subrange(0, prefix.len() as int) == prefix,
        r.subrange(r.len() - suffix.len(), r.len() as int) == suffix,
        bare_first && start == 1 && !taken.contains(prefix + suffix) ==> r == prefix + suffix,
        first_free(r2, taken, prefix, suffix, bare_first, start) ==> r2 == r,
{
    let n = choose|n: nat|
        #![trigger candidate(prefix, suffix, bare_first, n)]
        n >= start && r == candidate(prefix, suffix, bare_first, n) && !taken.contains(
            candidate(prefix, suffix, bare_first, n),
        ) && forall|m: nat|
            start <= m < n ==> taken.contains(#[trigger] candidate(prefix, suffix, bare_first, m));
    if n == 1 && bare_first {
        assert(r.subrange(0, prefix.len() as int) =~= prefix);
        assert(r.subrange(r.len() - suffix.len(), r.len() as int) =~= suffix);
    } else {
        let mid = seq!['_'] + decimal(n);
        assert(r =~= prefix + mid + suffix);
        assert(r.subrange(0, prefix.len() as int) =~= prefix);
        assert(r.subrange(r.len() - suffix.len(), r.len() as int) =~= suffix);
    }
    if bare_first && start == 1 && !taken.contains(prefix + suffix) {
        if n != 1 {
            assert(taken.contains(candidate(prefix, suffix, bare_first, 1)));
        }
    }
    if first_free(r2, taken, prefix, suffix, bare_first, start) {
        let n2 = choose|n2: nat|
            #![trigger candidate(prefix, suffix, bare_first, n2)]
            n2 >= start && r2 == candidate(prefix, suffix, bare_first, n2) && !taken.contains(
                candidate(prefix, suffix, bare_first, n2),
            ) && forall|m: nat|
                start <= m < n2 ==> taken.contains(#[trigger] candidate(prefix, suffix, bare_first, m));
        if n2 < n {
            assert(taken.contains(candidate(prefix, suffix, bare_first, n2)));
        } else if n < n2 {
            assert(taken.contains(candidate(prefix, suffix, bare_first, n)));
        }
    }
}

proof fn lemma_digit(d: nat)
    requires
        d < 10,
    ensures
        digit_value(digit_char(d)) == d,
{
}

proof fn lemma_decimal_value(n: nat)
    ensures
        decimal_value(decimal(n)) == n,
        decimal(n).len() >= 1,
    decreases n,
{
    if n >= 10 {
        lemma_decimal_value(n / 10);
        lemma_digit(n % 10);
        assert(decimal(n).drop_last() =~= decimal(n / 10));
        assert(decimal(n).last() == digit_char(n % 10));
        assert((n / 10) * 10 + n % 10 == n);
        assert(decimal_value(decimal(n)) == decimal_value(decimal(n / 10)) * 10 + digit_value(
            digit_char(n % 10),
        ));
    } else {
        lemma_digit(n);
        assert(decimal(n).drop_last() =~= Seq::<char>::empty());
        assert(decimal(n).last() == digit_char(n));
        assert(decimal_value(Seq::<char>::empty()) == 0);
        assert(decimal_value(decimal(n)) == decimal_value(Seq::<char>::empty()) * 10 + digit_value(
            digit_char(n),
        ));
    }
}

proof fn lemma_decimal_injective(a: nat, b: nat)
    requires
        decimal(a) == decimal(b),
    ensures
        a == b,
{
    lemma_decimal_value(a);
    lemma_decimal_value(b);
}

proof fn lemma_candidate_injective(p: Seq<char>, s: Seq<char>, bare: bool, a: nat, b: nat)
    requires
        candidate(p, s, bare, a) == candidate(p, s, bare, b),
    ensures
        a == b,
{
    lemma_decimal_value(a);
    lemma_decimal_value(b);
    let ca = candidate(p, s, bare, a);
    if a == 1 && bare {
        if !(b == 1 && bare) {
            assert(ca == p + s);
            assert(candidate(p, s, bare, b) == p + seq!['_'] + decimal(b) + s);
            assert(ca.len() != candidate(p, s, bare, b).len());
        }
    } else if b == 1 && bare {
        assert(ca == p + seq!['_'] + decimal(a) + s);
        assert(candidate(p, s, bare, b) == p + s);
        assert(ca.len() != candidate(p, s, bare, b).len());
    } else {
        let da = decimal(a);
        let db = decimal(b);
        let cb = candidate(p, s, bare, b);
        let k = p.len() + 1int;
        assert(ca == p + seq!['_'] + da + s);
        assert(cb == p + seq!['_'] + db + s);
        assert(ca.len() == p.len() + 1 + da.len() + s.len());
        assert(cb.len() == p.len() + 1 + db.len() + s.len());
        assert(da.len() == db.len());
        assert(ca.subrange(k, k + da.len() as int) =~= da);
        assert(candidate(p, s, bare, b).subrange(k, k + db.len() as int) =~= db);
        lemma_decimal_injective(a, b);
    }
}

/// Among `taken.len() + 1` consecutive candidates one is free: there are
/// not enough taken names for all of them, as candidates are distinct.
proof fn lemma_some_free(
    taken: Seq<Seq<char>>,
    p: Seq<char>,
    s: Seq<char>,
    bare: bool,
    start: nat,
)
    ensures
        exists|m: nat|
            start <= m < start + taken.len() + 1 && !taken.contains(
                #[trigger] candidate(p, s, bare, m),
            ),
{
    if forall|m: nat|
        start <= m < start + taken.len() + 1 ==> taken.contains(#[trigger] candidate(p, s, bare, m)) {
        lemma_all_taken_impossible(taken, p, s, bare, start);
    }
}

proof fn lemma_all_taken_impossible(
    taken: Seq<Seq<char>>,
    p: Seq<char>,
    s: Seq<char>,
    bare: bool,
    start: nat,
)
    requires
        forall|m: nat|
            start <= m < start + taken.len() + 1 ==> taken.contains(
                #[trigger] candidate(p, s, bare, m),
            ),
    ensures
        taken.len() + 1 <= taken.len(),
{
    let lo = start as int;
    let hi = (start + taken.len() + 1) as int;
    let r = set_int_range(lo, hi);
    lemma_int_range(lo, hi);
    let f = |n: int| candidate(p, s, bare, n as nat);
    assert forall|x: int, y: int| r.contains(x) && r.contains(y) && #[trigger] f(x) == #[trigger] f(
        y,
    ) implies x == y by {
        lemma_candidate_injective(p, s, bare, x as nat, y as nat);
    }
    assert(injective_on(f, r));
    let img = r.map(f);
    lemma_map_size(r, img, f);
    let t = taken.to_set();
    assert forall|c: Seq<char>| img.contains(c) implies t.contains(c) by {
        let n = choose|n: int| r.contains(n) && f(n) == c;
        assert(taken.contains(candidate(p, s, bare, n as nat)));
    }
    taken.lemma_cardinality_of_set();
    vstd::seq_lib::seq_to_set_is_finite(taken);
    lemma_len_subset(img, t);
}

/// Decimal digits of `n`.
fn decimal_chars(n: usize) -> (v: Vec<char>)
    ensures
        v@ == decimal(n as nat),
    decreases n,
{
    let d = n % 10;
    let c = if d == 0 {
        '0'
    } else if d == 1 {
        '1'
    } else if d == 2 {
        '2'
    } else if d == 3 {
        '3'
    } else if d == 4 {
        '4'
    } else if d == 5 {
        '5'
    } else if d == 6 {
        '6'
    } else if d == 7 {
        '7'
    } else if d == 8 {
        '8'
    } else {
        '9'
    };
    if n < 10 {
        let mut v = Vec::new();
        v.push(c);
        assert(v@ =~= seq![c]);
        v
    } else {
        let mut v = decimal_chars(n / 10);
        v.push(c);
        v
    }
}

/// The string `prefix` + `suffix`, or `prefix` + `_n` + `suffix`.
fn build_candidate(prefix: &str, suffix: &str, bare_first: bool, n: usize) -> (r: String)
    ensures
        r@ == candidate(prefix@, suffix@, bare_first, n as nat),
{
    let mut r = prefix.to_owned();
    if !(n == 1 && bare_first) {
        r.push('_');
        let digits = decimal_chars(n);
        let mut i: usize = 0;
        while i < digits.len()
            invariant
                i <= digits@.len(),
                r@ == prefix@ + seq!['_'] + digits@.subrange(0, i as int),
            decreases digits@.len() - i,
        {
            r.push(digits[i]);
            assert(digits@.subrange(0, i + 1) =~= digits@.subrange(0, i as int).push(
                digits@[i as int],
            ));
            i = i + 1;
        }
        assert(digits@.subrange(0, digits@.len() as int) =~= digits@);
    }
    r.append(suffix);
    r
}

/// Whether `name` is among `taken`.
pub fn contains_name(taken: &Vec<String>, name: &String) -> (b: bool)
    ensures
        b == names(taken@).contains(name@),
{
    let mut i: usize = 0;
    while i < taken.len()
        invariant
            i <= taken@.len(),
            forall|k: int| 0 <= k < i ==> taken@[k]@ != name@,
        decreases taken@.len() - i,
    {
        if taken[i] == *name {
            assert(names(taken@)[i as int] == name@);
            return true;
        }
        i = i + 1;
    }
    proof {
        if names(taken@).contains(name@) {
            let k = choose|k: int| 0 <= k < names(taken@).len() && names(taken@)[k] == name@;
            assert(taken@[k]@ == name@);
        }
    }
    false
}

/// The first candidate from number `start` on that is not in `taken`.
pub fn first_free_name(
    taken: &Vec<String>,
    prefix: &str,
    suffix: &str,
    bare_first: bool,
    start: usize,
) -> (r: String)
    requires
        start + taken@.len() + 1 <= usize::MAX,
    ensures
        first_free(r@, names(taken@), prefix@, suffix@, bare_first, start as nat),
{
    let ghost t = names(taken@);
    let mut n = start;
    let bound = start + taken.len() + 1;
    while n < bound
        invariant
            start <= n <= bound,
            bound == start + t.len() + 1,
            t == names(taken@),
            forall|m: nat|
                start <= m < n ==> t.contains(#[trigger] candidate(prefix@, suffix@, bare_first, m)),
        decreases bound - n,
    {
        let c = build_candidate(prefix, suffix, bare_first, n);
        if !contains_name(taken, &c) {
            assert(first_free(c@, t, prefix@, suffix@, bare_first, start as nat)) by {
                assert(c@ == candidate(prefix@, suffix@, bare_first, n as nat));
            }
            return c;
        }
        n = n + 1;
    }
    proof {
        lemma_some_free(t, prefix@, suffix@, bare_first, start as nat);
    }
    String::new()
}

/// Unicode `White_Space` characters (what `char::is_whitespace` accepts).
pub open spec fn is_white_space(c: char) -> bool {
    let u = c as u32;
    (0x09 <= u <= 0x0D) || u == 0x20 || u == 0x85 || u == 0xA0 || u == 0x1680 || (0x2000 <= u
        <= 0x200A) || u == 0x2028 || u == 0x2029 || u == 0x202F || u == 0x205F || u == 0x3000
}

fn is_white_space_char(c: char) -> (b: bool)
    ensures
        b == is_white_space(c),
{
    let u = c as u32;
    (0x09 <= u && u <= 0x0D) || u == 0x20 || u == 0x85 || u == 0xA0 || u == 0x1680 || (0x2000 <= u
        && u <= 0x200A) || u == 0x2028 || u == 0x2029 || u == 0x202F || u == 0x205F || u == 0x3000
}

/// Leading white space removed.
pub open spec fn trim_start_ws(s: Seq<char>) -> Seq<char>
    decreases s.len(),
{
    if s.len() > 0 && is_white_space(s[0]) {
        trim_start_ws(s.drop_first())
    } else {
        s
    }
}

/// Trailing white space removed.
pub open spec fn trim_end_ws(s: Seq<char>) -> Seq<char>
    decreases s.len(),
{
    if s.len() > 0 && is_white_space(s.last()) {
        trim_end_ws(s.drop_last())
    } else {
        s
    }
}

/// Leading and trailing white space removed.
pub open spec fn trim_ws(s: Seq<char>) -> Seq<char> {
    trim_end_ws(trim_start_ws(s))
}

/// `s` without leading and trailing white space.
pub fn trim(s: &str) -> (r: String)
    ensures
        r@ == trim_ws(s@),
{
    let n = s.unicode_len();
    let mut a: usize = 0;
    assert(s@.subrange(0, n as int) =~= s@);
    while a < n && is_white_space_char(s.get_char(a))
        invariant
            a <= n,
            n == s@.len(),
            trim_start_ws(s@) == trim_start_ws(s@.subrange(a as int, n as int)),
        decreases n - a,
    {
        assert(s@.subrange(a + 1, n as int) =~= s@.subrange(a as int, n as int).drop_first());
        a = a + 1;
    }
    let ghost mid = s@.subrange(a as int, n as int);
    proof {
        assert(s@.subrange(0, n as int) =~= s@);
        if a < n {
            assert(mid[0] == s@[a as int]);
        }
    }
    let mut b: usize = n;
    while b > a && is_white_space_char(s.get_char(b - 1))
        invariant
            a <= b <= n,
            n == s@.len(),
            mid == s@.subrange(a as int, n as int),
            trim_start_ws(s@) == mid,
            trim_end_ws(mid) == trim_end_ws(s@.subrange(a as int, b as int)),
        decreases b - a,
    {
        assert(s@.subrange(a as int, b - 1) =~= s@.subrange(a as int, b as int).drop_last());
        b = b - 1;
    }
    proof {
        if b > a {
            assert(s@.subrange(a as int, b as int).last() == s@[b - 1]);
        }
    }
    let mut r = String::new();
    let mut i = a;
    while i < b
        invariant
            a <= i <= b,
            b <= n,
            n == s@.len(),
            r@ == s@.subrange(a as int, i as int),
        decreases b - i,
    {
        r.push(s.get_char(i));
        assert(s@.subrange(a as int, i + 1) =~= s@.subrange(a as int, i as int).push(s@[i as int]));
        i = i + 1;
    }
    r
}

/// Whether some entry other than `selected` is named `name`.
pub open spec fn taken_by_other(names: Seq<Seq<char>>, selected: int, name: Seq<char>) -> bool {
    exists|i: int| 0 <= i < names.len() && i != selected && names[i] == name
}

/// The name to rename entry `selected` to: `new_name` trimmed, unless that
/// is empty, already used by another entry, or `selected` is out of range.
pub open spec fn rename_to(names: Seq<Seq<char>>, selected: int, new_name: Seq<char>) -> Option<
    Seq<char>,
> {
    let t = trim_ws(new_name);
    if t.len() == 0 || taken_by_other(names, selected, t) || !(0 <= selected < names.len()) {
        None
    } else {
        Some(t)
    }
}

/// The name that renaming entry `selected` of `existing` to `new_name`
/// gives, or `None` when the rename is refused.
pub fn rename_target(existing: &Vec<String>, selected: usize, new_name: &str) -> (r: Option<String>)
    ensures
        match r {
            Some(t) => rename_to(names(existing@), selected as int, new_name@) == Some(t@),
            None => rename_to(names(existing@), selected as int, new_name@) is None,
        },
{
    let t = trim(new_name);
    let ts = t.as_str();
    let tl = ts.unicode_len();
    if tl == 0 {
        assert(t@.len() == 0);
        return None;
    }
    let mut i: usize = 0;
    while i < existing.len()
        invariant
            i <= existing@.len(),
            t@ == trim_ws(new_name@),
            t@.len() > 0,
            forall|k: int| 0 <= k < i && k != selected ==> existing@[k]@ != t@,
        decreases existing@.len() - i,
    {
        if i != selected && existing[i] == t {
            assert(names(existing@)[i as int] == t@);
            return None;
        }
        i = i + 1;
    }
    proof {
        if taken_by_other(names(existing@), selected as int, t@) {
            let k = choose|k: int|
                0 <= k < names(existing@).len() && k != selected && names(existing@)[k] == t@;
            assert(existing@[k]@ == t@);
        }
    }
    if selected >= existing.len() {
        return None;
    }
    Some(t)
}

} // verus!
