//! Decisions of the grab-pose editor: which hand's grip points are shown,
//! the active point's index, default point names, drag field codes, marker
//! colours and the hand mesh paths.
use vstd::prelude::*;

use crate::naming::{first_free, first_free_name, names};

verus! {

broadcast use vstd::string::group_string_axioms;

#[derive(Clone, Copy, PartialEq, Eq, Debug, Structural)]
pub enum Hand {
    Left,
    Right,
}

/// How a hand attaches to a grip point.
#[derive(Clone, Copy, PartialEq, Eq, Debug, Structural)]
pub enum GripKind {
    Snap,
    Free,
    Pinch,
}

/// Which grip points the viewport and point list show: all of them, or one
/// hand's. Display only; saved data is never touched.
#[derive(Clone, Copy, PartialEq, Eq, Debug, Structural)]
pub enum HandView {
    All,
    Left,
    Right,
}

/// An RGBA colour.
#[derive(Clone, Copy, PartialEq, Eq, Debug, Structural)]
pub struct Rgba(pub u8, pub u8, pub u8, pub u8);

pub open spec fn view_shows(view: HandView, hand: Hand) -> bool {
    match view {
        HandView::All => true,
        HandView::Left => hand == Hand::Left,
        HandView::Right => hand == Hand::Right,
    }
}

impl HandView {
    /// Whether a point of `hand` is shown in this view.
    pub fn shows(self, hand: Hand) -> (b: bool)
        ensures
            b == view_shows(self, hand),
    {
        match self {
            HandView::All => true,
            HandView::Left => hand == Hand::Left,
            HandView::Right => hand == Hand::Right,
        }
    }
}

/// Path, relative to the game directory, of a hand's mesh.
pub open spec fn hand_path(hand: Hand) -> Seq<char> {
    match hand {
        Hand::Left => "models/left_hand.glb"@,
        Hand::Right => "models/right_hand.glb"@,
    }
}

pub fn hand_glb_path(hand: Hand) -> (p: &'static str)
    ensures
        p@ == hand_path(hand),
{
    match hand {
        Hand::Left => "models/left_hand.glb",
        Hand::Right => "models/right_hand.glb",
    }
}

/// Cache key of the editor's own skinned copy of a hand mesh, distinct from
/// the plain mesh cached under the raw path.
pub fn hand_cache_key(hand: Hand) -> (k: String)
    ensures
        k@ == "__grabpose_skinned__/"@ + hand_path(hand),
{
    let mut k = String::from_str("__grabpose_skinned__/");
    k.append(hand_glb_path(hand));
    k
}

/// One-letter tag of a hand.
pub fn hand_tag(hand: Hand) -> (t: &'static str)
    ensures
        t@ == match hand {
            Hand::Left => "L"@,
            Hand::Right => "R"@,
        },
{
    match hand {
        Hand::Left => "L",
        Hand::Right => "R",
    }
}

pub open spec fn grip_base(hand: Hand) -> Seq<char> {
    match hand {
        Hand::Left => "left_grip"@,
        Hand::Right => "right_grip"@,
    }
}

/// Name of a new grip point for `hand`: `left_grip` / `right_grip`, or the
/// first free `..._n` for n = 2, 3, ... when taken.
pub fn default_grip_name(existing: &Vec<String>, hand: Hand) -> (name: String)
    requires
        existing@.len() + 2 <= usize::MAX,
    ensures
        first_free(name@, names(existing@), grip_base(hand), Seq::empty(), true, 1),
{
    let base = match hand {
        Hand::Left => "left_grip",
        Hand::Right => "right_grip",
    };
    let r = first_free_name(existing, base, "", true, 1);
    proof {
        reveal_strlit("");
        assert(""@ =~= Seq::<char>::empty());
    }
    r
}

/// A grip pose field being edited: one axis of position, rotation (euler
/// degrees) or hand scale.
#[derive(Clone, Copy, PartialEq, Eq, Debug, Structural)]
pub enum PoseField {
    Pos(usize),
    Rot(usize),
    Scale(usize),
}

pub open spec fn pose_field_code(f: PoseField) -> int {
    match f {
        PoseField::Pos(i) => 1 + (i as u8),
        PoseField::Rot(i) => 4 + (i as u8),
        PoseField::Scale(i) => 7 + (i as u8),
    }
}

pub fn field_code(f: PoseField) -> (c: u8)
    requires
        pose_field_code(f) <= u8::MAX,
    ensures
        c == pose_field_code(f),
{
    match f {
        PoseField::Pos(i) => 1 + i as u8,
        PoseField::Rot(i) => 4 + i as u8,
        PoseField::Scale(i) => 7 + i as u8,
    }
}

/// First field code of the finger-curl groups.
pub const FINGER_FIELD_BASE: u8 = 10;

/// Field code of the position snap-step drag.
pub const POS_SNAP_STEP_CODE: u8 = 30;

/// Field code of the rotation snap-step drag.
pub const ROT_SNAP_STEP_CODE: u8 = 31;

/// Field code of finger group `group_idx`'s curl drag.
pub fn finger_field_code(group_idx: usize) -> (c: u8)
    requires
        FINGER_FIELD_BASE + (group_idx as u8) <= u8::MAX,
    ensures
        c == FINGER_FIELD_BASE + (group_idx as u8),
{
    FINGER_FIELD_BASE + group_idx as u8
}

pub open spec fn marker_rgba(kind: GripKind, active: bool) -> Rgba {
    match (kind, active) {
        (GripKind::Snap, true) => Rgba(90, 225, 255, 255),
        (GripKind::Snap, false) => Rgba(40, 110, 140, 255),
        (GripKind::Free, true) => Rgba(255, 195, 60, 255),
        (GripKind::Free, false) => Rgba(150, 105, 30, 255),
        (GripKind::Pinch, true) => Rgba(255, 110, 220, 255),
        (GripKind::Pinch, false) => Rgba(150, 60, 130, 255),
    }
}

/// Colour of a grip point's marker, brighter when active.
pub fn marker_color(kind: GripKind, active: bool) -> (c: Rgba)
    ensures
        c == marker_rgba(kind, active),
{
    match (kind, active) {
        (GripKind::Snap, true) => Rgba(90, 225, 255, 255),
        (GripKind::Snap, false) => Rgba(40, 110, 140, 255),
        (GripKind::Free, true) => Rgba(255, 195, 60, 255),
        (GripKind::Free, false) => Rgba(150, 105, 30, 255),
        (GripKind::Pinch, true) => Rgba(255, 110, 220, 255),
        (GripKind::Pinch, false) => Rgba(150, 60, 130, 255),
    }
}

/// `index` clamped to a list of `len` points (0 for an empty list).
pub open spec fn clamp_point(index: usize, len: usize) -> usize {
    let last = if len == 0 {
        0
    } else {
        len - 1
    };
    if index < last {
        index
    } else {
        last as usize
    }
}

/// The active point after selecting `index` among `len` points, or after an
/// edit that may have changed the list.
pub fn select_point(index: usize, len: usize) -> (i: usize)
    ensures
        i == clamp_point(index, len),
{
    let last = if len == 0 {
        0
    } else {
        len - 1
    };
    if index < last {
        index
    } else {
        last
    }
}

/// The first point from index `k` on that `view` shows, if any.
pub open spec fn first_shown_from(view: HandView, hands: Seq<Hand>, k: int) -> Option<usize>
    decreases hands.len() - k,
{
    if k < 0 || k >= hands.len() {
        None
    } else if view_shows(view, hands[k]) {
        Some(k as usize)
    } else {
        first_shown_from(view, hands, k + 1)
    }
}

/// The first point `view` shows, if any.
pub open spec fn first_shown(view: HandView, hands: Seq<Hand>) -> Option<usize> {
    first_shown_from(view, hands, 0)
}

/// Selection change when the hand view switches to `view`: none while the
/// active point stays visible, else the first visible point (if any).
/// `hands[i]` is the hand of point `i`.
pub open spec fn reselect_for_view(view: HandView, active: usize, hands: Seq<Hand>) -> Option<usize> {
    if active < hands.len() && view_shows(view, hands[active as int]) {
        None
    } else {
        first_shown(view, hands)
    }
}

pub fn reselect(view: HandView, active: usize, hands: &Vec<Hand>) -> (r: Option<usize>)
    ensures
        r == reselect_for_view(view, active, hands@),
{
    if active < hands.len() && view.shows(hands[active]) {
        return None;
    }
    let mut i: usize = 0;
    while i < hands.len()
        invariant
            i <= hands@.len(),
            first_shown(view, hands@) == first_shown_from(view, hands@, i as int),
            reselect_for_view(view, active, hands@) == first_shown(view, hands@),
        decreases hands@.len() - i,
    {
        if view.shows(hands[i]) {
            return Some(i);
        }
        i = i + 1;
    }
    None
}

/// The hand view after adding a point for `hand`: a handed view jumps to
/// that hand so the new point is visible; `All` stays.
pub open spec fn view_after_add(view: HandView, hand: Hand) -> HandView {
    if view == HandView::All {
        HandView::All
    } else {
        match hand {
            Hand::Left => HandView::Left,
            Hand::Right => HandView::Right,
        }
    }
}

pub fn hand_view_after_add(view: HandView, hand: Hand) -> (v: HandView)
    ensures
        v == view_after_add(view, hand),
{
    if view != HandView::All {
        match hand {
            Hand::Left => HandView::Left,
            Hand::Right => HandView::Right,
        }
    } else {
        view
    }
}

/// A point may be deleted only while more than one remains.
pub fn can_delete_point(len: usize) -> (b: bool)
    ensures
        b == (len > 1),
{
    len > 1
}

/// Law: selecting point `index` among `len` points keeps it when it exists
/// and otherwise takes the last point; the result never passes `index` and
/// always exists when there are points.
pub proof fn lemma_select_point_clamps(index: usize, len: usize)
    ensures
        clamp_point(index, len) <= index,
        len > 0 ==> clamp_point(index, len) < len,
        index < len ==> clamp_point(index, len) == index,
        len > 0 && index >= len ==> clamp_point(index, len) == len - 1,
        len == 0 ==> clamp_point(index, len) == 0,
{
}

proof fn lemma_first_shown_from(view: HandView, hands: Seq<Hand>, k: int)
    requires
        0 <= k,
        hands.len() <= usize::MAX,
    ensures
        first_shown_from(view, hands, k) matches Some(i) ==> k <= i < hands.len() && view_shows(
            view,
            hands[i as int],
        ) && forall|j: int| k <= j < i ==> !view_shows(view, #[trigger] hands[j]),
        first_shown_from(view, hands, k) is None ==> forall|j: int|
            k <= j < hands.len() ==> !view_shows(view, #[trigger] hands[j]),
    decreases hands.len() - k,
{
    if k < hands.len() && !view_shows(view, hands[k]) {
        lemma_first_shown_from(view, hands, k + 1);
    }
}

/// Law: switching the hand view keeps the active point while the view shows
/// it; otherwise it selects the first point the view shows, or reports that
/// it shows none.
pub proof fn lemma_reselect_first_visible(view: HandView, active: usize, hands: Seq<Hand>)
    requires
        hands.len() <= usize::MAX,
    ensures
        active < hands.len() && view_shows(view, hands[active as int]) ==> reselect_for_view(
            view,
            active,
            hands,
        ) is None,
        reselect_for_view(view, active, hands) matches Some(i) ==> i < hands.len() && view_shows(
            view,
            hands[i as int],
        ) && forall|j: int| 0 <= j < i ==> !view_shows(view, #[trigger] hands[j]),
        reselect_for_view(view, active, hands) is None ==> (active < hands.len() && view_shows(
            view,
            hands[active as int],
        )) || forall|j: int| 0 <= j < hands.len() ==> !view_shows(view, #[trigger] hands[j]),
{
    lemma_first_shown_from(view, hands, 0);
}

/// Law: after adding a point for `hand`, the hand view shows it; the view
/// showing all hands stays as it is.
pub proof fn lemma_added_point_visible(view: HandView, hand: Hand)
    ensures
        view_shows(view_after_add(view, hand), hand),
        view == HandView::All ==> view_after_add(view, hand) == HandView::All,
        view != HandView::All ==> view_after_add(view, hand) != HandView::All,
{
}

/// Law: the All view shows every hand, a one-hand view exactly that hand.
pub proof fn lemma_views_show(hand: Hand)
    ensures
        view_shows(HandView::All, hand),
        view_shows(HandView::Left, hand) == (hand == Hand::Left),
        view_shows(HandView::Right, hand) == (hand == Hand::Right),
{
}

/// Law: the active marker of each grip kind is drawn brighter (in every
/// channel that is not already full) than the inactive one, and the kinds
/// have distinct colours.
pub proof fn lemma_marker_colours(kind: GripKind)
    ensures
        marker_rgba(kind, true).0 >= marker_rgba(kind, false).0,
        marker_rgba(kind, true).1 > marker_rgba(kind, false).1,
        marker_rgba(kind, true).2 > marker_rgba(kind, false).2,
        marker_rgba(kind, true).3 == 255 && marker_rgba(kind, false).3 == 255,
        marker_rgba(GripKind::Snap, true) != marker_rgba(GripKind::Free, true),
        marker_rgba(GripKind::Snap, true) != marker_rgba(GripKind::Pinch, true),
        marker_rgba(GripKind::Free, true) != marker_rgba(GripKind::Pinch, true),
{
}

} // verus!
