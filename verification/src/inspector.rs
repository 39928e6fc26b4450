//! Text defaults of the object inspector: the stub for a new object script
//! and ids for duplicated objects.
use vstd::prelude::*;

use crate::naming::{first_free, first_free_name, names};

verus! {

broadcast use vstd::string::group_string_axioms;

/// The script text a new object script starts with.
pub fn default_script_stub(id: &str) -> (s: String)
    ensures
        s@ == "// Script for '"@ + id@ + "'\n\nfn on_update(dt) {\n}\n"@,
{
    let mut s = String::from_str("// Script for '");
    s.append(id);
    s.append("'\n\nfn on_update(dt) {\n}\n");
    s
}

pub open spec fn is_digit_or_underscore(c: char) -> bool {
    (48 <= (c as u32) <= 57) || c == '_'
}

/// `s` without its trailing digits and underscores.
pub open spec fn trim_numbering(s: Seq<char>) -> Seq<char>
    decreases s.len(),
{
    if s.len() > 0 && is_digit_or_underscore(s.last()) {
        trim_numbering(s.drop_last())
    } else {
        s
    }
}

/// The stem a duplicate's id is numbered from: `base` without a trailing
/// number (and underscores), or `base` itself if nothing else remains.
pub open spec fn id_stem(base: Seq<char>) -> Seq<char> {
    if trim_numbering(base).len() == 0 {
        base
    } else {
        trim_numbering(base)
    }
}

fn is_numbering_char(c: char) -> (b: bool)
    ensures
        b == is_digit_or_underscore(c),
{
    let u = c as u32;
    (48 <= u && u <= 57) || c == '_'
}

fn stem_of(base: &str) -> (stem: String)
    ensures
        stem@ == id_stem(base@),
{
    let n = base.unicode_len();
    let mut b = n;
    assert(base@.subrange(0, n as int) =~= base@);
    while b > 0 && is_numbering_char(base.get_char(b - 1))
        invariant
            b <= n,
            n == base@.len(),
            trim_numbering(base@) == trim_numbering(base@.subrange(0, b as int)),
        decreases b,
    {
        assert(base@.subrange(0, b - 1) =~= base@.subrange(0, b as int).drop_last());
        b = b - 1;
    }
    if b == 0 {
        assert(base@.subrange(0, 0) =~= Seq::<char>::empty());
        return base.to_owned();
    }
    proof {
        assert(base@.subrange(0, b as int).last() == base@[b - 1]);
    }
    let mut r = String::new();
    let mut i: usize = 0;
    while i < b
        invariant
            i <= b,
            b <= n,
            n == base@.len(),
            r@ == base@.subrange(0, i as int),
        decreases b - i,
    {
        r.push(base.get_char(i));
        assert(base@.subrange(0, i + 1) =~= base@.subrange(0, i as int).push(base@[i as int]));
        i = i + 1;
    }
    r
}

/// Id for a copy of object `base`: its stem (trailing number stripped)
/// followed by the first free `_n` for n = 2, 3, ... `existing` holds the
/// ids in the scene.
proof fn lemma_trim_numbering_prefix(s: Seq<char>)
    ensures
        trim_numbering(s).len() <= s.len(),
        trim_numbering(s) == s.subrange(0, trim_numbering(s).len() as int),
        trim_numbering(s).len() > 0 ==> !is_digit_or_underscore(trim_numbering(s).last()),
        forall|j: int| trim_numbering(s).len() <= j < s.len() ==> is_digit_or_underscore(
            #[trigger] s[j],
        ),
    decreases s.len(),
{
    if s.len() > 0 && is_digit_or_underscore(s.last()) {
        lemma_trim_numbering_prefix(s.drop_last());
        let t = trim_numbering(s.drop_last());
        assert(s.drop_last().subrange(0, t.len() as int) =~= s.subrange(0, t.len() as int));
        assert forall|j: int| t.len() <= j < s.len() implies is_digit_or_underscore(#[trigger] s[j]) by {
            if j < s.len() - 1 {
                assert(s[j] == s.drop_last()[j]);
            }
        }
    } else {
        assert(s.subrange(0, s.len() as int) =~= s);
    }
}

/// Law: a duplicate's stem is `base` with its trailing digits and
/// underscores cut off; when nothing else would remain it is `base` itself.
/// The stem is a non-empty prefix of a non-empty `base`, and what was cut
/// off holds only digits and underscores.
pub proof fn lemma_id_stem(base: Seq<char>)
    ensures
        ({
            let st = id_stem(base);
            &&& st.len() <= base.len()
            &&& st == base.subrange(0, st.len() as int)
            &&& base.len() > 0 ==> st.len() > 0
            &&& forall|j: int| st.len() <= j < base.len() ==> is_digit_or_underscore(
                #[trigger] base[j],
            )
            &&& st != base ==> !is_digit_or_underscore(st.last())
            &&& (base.len() > 0 && !is_digit_or_underscore(base.last())) ==> st == base
        }),
{
    lemma_trim_numbering_prefix(base);
    if trim_numbering(base).len() == 0 {
        assert(base.subrange(0, base.len() as int) =~= base);
    }
}

pub fn unique_id(existing: &Vec<String>, base: &str) -> (id: String)
    requires
        existing@.len() + 3 <= usize::MAX,
    ensures
        first_free(id@, names(existing@), id_stem(base@), Seq::empty(), false, 2),
{
    let stem = stem_of(base);
    let r = first_free_name(existing, stem.as_str(), "", false, 2);
    proof {
        reveal_strlit("");
        assert(""@ =~= Seq::<char>::empty());
    }
    r
}

} // verus!
