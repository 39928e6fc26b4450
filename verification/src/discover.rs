//! Where the game's files live.
use vstd::prelude::*;

verus! {

/// The game directory, relative to the editor's working directory.
pub fn game_dir() -> (d: String)
    ensures
        d@ == "../game"@,
{
    String::from_str("../game")
}

/// `c` equals the lower-case ASCII letter `t` up to ASCII case.
pub open spec fn same_letter_ignoring_case(c: char, t: char) -> bool {
    c == t || (65 <= (c as u32) <= 90 && (c as u32) + 32 == (t as u32))
}

/// `a` equals the lower-case ASCII word `t` up to ASCII case.
pub open spec fn eq_ignoring_case(a: Seq<char>, t: Seq<char>) -> bool {
    a.len() == t.len() && forall|i: int|
        0 <= i < a.len() ==> same_letter_ignoring_case(a[i], #[trigger] t[i])
}

fn eq_ignore_case(a: &str, t: &str) -> (b: bool)
    ensures
        b == eq_ignoring_case(a@, t@),
{
    let n = a.unicode_len();
    let m = t.unicode_len();
    if n != m {
        return false;
    }
    let mut i: usize = 0;
    while i < n
        invariant
            i <= n,
            n == a@.len(),
            n == m,
            m == t@.len(),
            forall|k: int| 0 <= k < i ==> same_letter_ignoring_case(a@[k], #[trigger] t@[k]),
        decreases n - i,
    {
        let c = a.get_char(i);
        let d = t.get_char(i);
        let cu = c as u32;
        if !(c == d || (65 <= cu && cu <= 90 && cu + 32 == d as u32)) {
            return false;
        }
        i = i + 1;
    }
    true
}

/// Model files are glTF: extension `glb` or `gltf`, in any case.
pub fn is_model_extension(ext: &str) -> (b: bool)
    ensures
        b == (eq_ignoring_case(ext@, "glb"@) || eq_ignoring_case(ext@, "gltf"@)),
{
    eq_ignore_case(ext, "glb") || eq_ignore_case(ext, "gltf")
}

/// Scene and data files have the extension `json` exactly.
pub fn is_json_extension(ext: &str) -> (b: bool)
    ensures
        b == (ext@ == "json"@),
{
    crate::chars::str_eq(ext, "json")
}

} // verus!
