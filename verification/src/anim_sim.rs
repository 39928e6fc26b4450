//! Decisions of the animation editor that do not depend on the animation
//! data itself: binding button labels, drag field codes, fresh animation
//! names, renaming, keeping the animation/keyframe selection in range, and
//! cycling a controller binding through buttons and animations.
use vstd::prelude::*;

use crate::chars::str_eq;
use crate::naming::{candidate, first_free, first_free_name, names};

verus! {

broadcast use vstd::string::group_string_axioms;

/// The engine's button id for each human button label.
pub open spec fn button_label_of(id: Seq<char>) -> Seq<char> {
    if id == "btn_a"@ {
        "A"@
    } else if id == "btn_b"@ {
        "B"@
    } else if id == "btn_x"@ {
        "X"@
    } else if id == "btn_y"@ {
        "Y"@
    } else if id == "trigger"@ {
        "Trigger"@
    } else if id == "grip"@ {
        "Grip"@
    } else {
        "?"@
    }
}

/// The human label of a controller binding button id (`"?"` when unknown).
pub fn button_label(id: &str) -> (label: &'static str)
    ensures
        label@ == button_label_of(id@),
{
    if str_eq(id, "btn_a") {
        "A"
    } else if str_eq(id, "btn_b") {
        "B"
    } else if str_eq(id, "btn_x") {
        "X"
    } else if str_eq(id, "btn_y") {
        "Y"
    } else if str_eq(id, "trigger") {
        "Trigger"
    } else if str_eq(id, "grip") {
        "Grip"
    } else {
        "?"
    }
}

/// A keyframe field being edited: time, or one axis of position, rotation
/// (euler degrees) or scale.
#[derive(Clone, Copy, PartialEq, Eq, Debug, Structural)]
pub enum KeyField {
    T,
    Pos(usize),
    RotEuler(usize),
    Scale(usize),
}

/// Code of a keyframe field: 0 for time, then three codes per channel.
pub open spec fn key_field_code(f: KeyField) -> int {
    match f {
        KeyField::T => 0,
        KeyField::Pos(i) => 1 + (i as u8),
        KeyField::RotEuler(i) => 4 + (i as u8),
        KeyField::Scale(i) => 7 + (i as u8),
    }
}

/// Law: every keyframe field has its own code: time is 0 and the three axes
/// of position, rotation and scale take 1-3, 4-6 and 7-9.
pub proof fn lemma_key_field_codes_distinct(f: KeyField, g: KeyField)
    requires
        f matches KeyField::Pos(i) ==> i < 3,
        f matches KeyField::RotEuler(i) ==> i < 3,
        f matches KeyField::Scale(i) ==> i < 3,
        g matches KeyField::Pos(i) ==> i < 3,
        g matches KeyField::RotEuler(i) ==> i < 3,
        g matches KeyField::Scale(i) ==> i < 3,
    ensures
        0 <= key_field_code(f) <= 9,
        f == KeyField::T <==> key_field_code(f) == 0,
        key_field_code(f) == key_field_code(g) <==> f == g,
{
}

pub fn field_code(f: KeyField) -> (c: u8)
    requires
        key_field_code(f) <= u8::MAX,
    ensures
        c == key_field_code(f),
{
    match f {
        KeyField::T => 0,
        KeyField::Pos(i) => 1 + i as u8,
        KeyField::RotEuler(i) => 4 + i as u8,
        KeyField::Scale(i) => 7 + i as u8,
    }
}

/// A fresh animation name: `base` itself if free (unless it is the default
/// base `anim`), else the first free `base_n` for n = 1, 2, ...
pub fn unique_anim_name(existing: &Vec<String>, base: &str) -> (name: String)
    requires
        existing@.len() + 2 <= usize::MAX,
    ensures
        first_free(name@, names(existing@), base@, Seq::empty(), base@ != "anim"@, 1),
{
    let bare = !str_eq(base, "anim");
    let r = first_free_name(existing, base, "", bare, 1);
    proof {
        assert(""@.len() == 0) by {
            reveal_strlit("");
        }
        assert(""@ =~= Seq::<char>::empty());
    }
    r
}

/// Selection after the animation list may have changed: with no animations
/// nothing is selected; otherwise the animation index is clamped to the list,
/// and a selected keyframe is clamped to that animation's keyframes (dropped
/// when it has none). `key_counts[i]` is the number of keyframes of
/// animation `i`.
pub open spec fn clamped_selection(
    anim: usize,
    key: Option<usize>,
    key_counts: Seq<usize>,
) -> (usize, Option<usize>) {
    if key_counts.len() == 0 {
        (0, None)
    } else {
        let a = if anim < key_counts.len() {
            anim
        } else {
            (key_counts.len() - 1) as usize
        };
        let n = key_counts[a as int];
        (
            a,
            match key {
                None => None,
                Some(i) => if n == 0 {
                    None
                } else if i < n {
                    Some(i)
                } else {
                    Some((n - 1) as usize)
                },
            },
        )
    }
}

/// Law: clamping the selection to the animation list keeps what is in range
/// and lowers only what is past the end. The animation index stays when it
/// exists (else the last animation is taken); a keyframe index below the
/// animation's keyframe count stays, one at or past it becomes the last
/// keyframe, and an animation without keyframes has none selected.
pub proof fn lemma_clamp_keeps_in_range(anim: usize, key: Option<usize>, key_counts: Seq<usize>)
    ensures
        ({
            let (a, k) = clamped_selection(anim, key, key_counts);
            let n = key_counts.len();
            &&& n == 0 ==> a == 0 && k is None
            &&& n > 0 && anim < n ==> a == anim
            &&& n > 0 && anim >= n ==> a == n - 1
            &&& n > 0 ==> a < n
            &&& key is None ==> k is None
            &&& (key matches Some(i) ==> (n > 0 && i < key_counts[a as int] ==> k == Some(i)))
            &&& (key matches Some(i) ==> (n > 0 && i >= key_counts[a as int] > 0 ==> k == Some(
                (key_counts[a as int] - 1) as usize,
            )))
            &&& n > 0 && key_counts[a as int] == 0 ==> k is None
            &&& k matches Some(j) ==> n > 0 && j < key_counts[a as int]
        }),
{
}

/// Law: picking keyframe `index` of an existing animation selects exactly
/// that keyframe when the animation has it; picking animation `index`
/// selects it (if it exists) with its first keyframe, if any.
pub proof fn lemma_pick_selects(anim: usize, index: usize, key_counts: Seq<usize>)
    ensures
        anim < key_counts.len() && index < key_counts[anim as int] ==> clamped_selection(
            anim,
            Some(index),
            key_counts,
        ) == (anim, Some(index)),
        index < key_counts.len() ==> anim_selected(index, key_counts) == (
            index,
            if key_counts[index as int] > 0 {
                Some(0usize)
            } else {
                None
            },
        ),
{
}

pub fn clamp_selection(anim: usize, key: Option<usize>, key_counts: &Vec<usize>) -> (r: (
    usize,
    Option<usize>,
))
    ensures
        r == clamped_selection(anim, key, key_counts@),
{
    let len = key_counts.len();
    if len == 0 {
        return (0, None);
    }
    let a = if anim < len {
        anim
    } else {
        len - 1
    };
    let n = key_counts[a];
    let k = match key {
        None => None,
        Some(i) => if n == 0 {
            None
        } else if i < n {
            Some(i)
        } else {
            Some(n - 1)
        },
    };
    (a, k)
}

/// Selection after picking animation `index`: the index clamped to the list,
/// and its first keyframe selected when it has one.
pub open spec fn anim_selected(index: usize, key_counts: Seq<usize>) -> (usize, Option<usize>) {
    let (a, _) = clamped_selection(index, None, key_counts);
    (
        a,
        if key_counts.len() > 0 && key_counts[a as int] > 0 {
            Some(0)
        } else {
            None
        },
    )
}

pub fn select_anim_selection(index: usize, key_counts: &Vec<usize>) -> (r: (usize, Option<usize>))
    ensures
        r == anim_selected(index, key_counts@),
{
    let (a, _) = clamp_selection(index, None, key_counts);
    let k = if key_counts.len() > 0 && key_counts[a] > 0 {
        Some(0)
    } else {
        None
    };
    (a, k)
}

/// Selection after picking keyframe `index` of the selected animation.
pub fn select_key_selection(anim: usize, index: usize, key_counts: &Vec<usize>) -> (r: (
    usize,
    Option<usize>,
))
    ensures
        r == clamped_selection(anim, Some(index), key_counts@),
{
    clamp_selection(anim, Some(index), key_counts)
}

/// Every binding that names the animation `from` is pointed at `to`
/// (renaming keeps bindings; deleting passes an empty `to`).
pub fn retarget_bindings(bindings: &mut Vec<String>, from: &String, to: &String)
    ensures
        names(final(bindings)@) == names(old(bindings)@).map_values(
            |b: Seq<char>|
                if b == from@ {
                    to@
                } else {
                    b
                },
        ),
{
    let ghost orig = names(bindings@);
    let mut i: usize = 0;
    while i < bindings.len()
        invariant
            i <= bindings@.len(),
            orig.len() == bindings@.len(),
            forall|k: int|
                0 <= k < bindings@.len() ==> (#[trigger] bindings@[k])@ == if k < i {
                    if orig[k] == from@ {
                        to@
                    } else {
                        orig[k]
                    }
                } else {
                    orig[k]
                },
        decreases bindings@.len() - i,
    {
        if bindings[i] == *from {
            bindings.set(i, to.clone());
        }
        i = i + 1;
    }
    assert(names(bindings@) =~= orig.map_values(
        |b: Seq<char>|
            if b == from@ {
                to@
            } else {
                b
            },
    ));
}

/// The index of the first entry of `s` at or after `k` that equals `x`.
pub open spec fn position_from(s: Seq<Seq<char>>, x: Seq<char>, k: int) -> Option<int>
    decreases s.len() - k,
{
    if k < 0 || k >= s.len() {
        None
    } else if s[k] == x {
        Some(k)
    } else {
        position_from(s, x, k + 1)
    }
}

/// The index of the first entry of `list` equal to `x`.
fn position_of(list: &Vec<String>, x: &String) -> (r: Option<usize>)
    ensures
        r matches Some(i) ==> position_from(names(list@), x@, 0) == Some(i as int),
        r is None ==> position_from(names(list@), x@, 0) is None,
{
    let ghost s = names(list@);
    let mut i: usize = 0;
    while i < list.len()
        invariant
            i <= list@.len(),
            s == names(list@),
            position_from(s, x@, 0) == position_from(s, x@, i as int),
        decreases list@.len() - i,
    {
        if list[i] == *x {
            return Some(i);
        }
        i = i + 1;
    }
    None
}

/// A binding's button after clicking it: the button after its current one
/// in `buttons`, wrapping around; the second button (or the only one) when
/// its button is not in the list.
pub open spec fn next_button(buttons: Seq<Seq<char>>, current: Seq<char>) -> int {
    let cur = match position_from(buttons, current, 0) {
        Some(c) => c,
        None => 0,
    };
    (cur + 1) % (buttons.len() as int)
}

/// A binding's animation after clicking it: the animation after its current
/// one in `names`, wrapping around; the first one when it names none of them.
pub open spec fn next_anim(names: Seq<Seq<char>>, current: Seq<char>) -> int {
    match position_from(names, current, 0) {
        Some(c) => (c + 1) % (names.len() as int),
        None => 0,
    }
}

/// The index in `buttons` of the button a binding cycles to from `current`.
pub fn next_binding_button(buttons: &Vec<String>, current: &String) -> (i: usize)
    requires
        buttons@.len() > 0,
    ensures
        i == next_button(names(buttons@), current@),
        i < buttons@.len(),
{
    proof {
        lemma_position_in_range(names(buttons@), current@, 0);
    }
    let cur = match position_of(buttons, current) {
        Some(c) => c,
        None => 0,
    };
    let n = buttons.len();
    (cur + 1) % n
}

/// The index in `names` of the animation a binding cycles to from
/// `current`; `None` when the object has no animations.
pub fn next_binding_anim(names: &Vec<String>, current: &String) -> (r: Option<usize>)
    ensures
        r == if names@.len() == 0 {
            None::<usize>
        } else {
            Some(next_anim(crate::naming::names(names@), current@) as usize)
        },
        r matches Some(i) ==> i < names@.len(),
{
    if names.len() == 0 {
        return None;
    }
    match position_of(names, current) {
        Some(c) => {
            proof {
                lemma_position_in_range(crate::naming::names(names@), current@, 0);
            }
            let n = names.len();
            Some((c + 1) % n)
        },
        None => Some(0),
    }
}

proof fn lemma_position_in_range(s: Seq<Seq<char>>, x: Seq<char>, k: int)
    ensures
        position_from(s, x, k) matches Some(c) ==> k <= c < s.len() && s[c] == x,
    decreases s.len() - k,
{
    if 0 <= k < s.len() && s[k] != x {
        lemma_position_in_range(s, x, k + 1);
    }
}

} // verus!
