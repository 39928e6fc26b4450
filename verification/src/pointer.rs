//! What a left mouse press, a release or a pointer move does in the scene
//! editor's edit view.
//!
//! The window layer hit-tests the pointer (panels, model chips, gizmo
//! handles, snap markers, scene objects) and hands the results in as a
//! [`PressInput`], [`ReleaseInput`] or [`MoveInput`]; this module decides,
//! in a fixed order, what the event goes to, updates the [`PointerState`], and
//! names the work left to the window layer (placing a model, starting a
//! gizmo drag, seeding a grip pose, timing a double click).
//!
//! Scene objects and models are referred to by their index in the lists the
//! window layer keeps.
use vstd::prelude::*;

use crate::gizmo::Axis;

verus! {

/// The scene editor's tools.
#[derive(Clone, Copy, PartialEq, Eq, Debug, Structural)]
pub enum Tool {
    Select,
    Rigging,
    Snap,
}

/// The view-navigation buttons: orbit, pan and zoom by dragging.
#[derive(Clone, Copy, PartialEq, Eq, Debug, Structural)]
pub enum NavPart {
    Orbit,
    Pan,
    Zoom,
}

/// The left button's state between events.
#[derive(Clone, Copy, PartialEq, Eq, Debug, Structural)]
pub struct PointerState {
    /// The button is held.
    pub left_down: bool,
    /// The current press went to something other than a plain click.
    pub dragged: bool,
    /// A double click started moving the selected object.
    pub moving_object: bool,
    /// A transform gizmo drag is under way.
    pub gizmo_dragging: bool,
    /// A view-navigation button is being dragged.
    pub nav_drag: Option<NavPart>,
    /// The press landed in the open text editor.
    pub editor_focused: bool,
    /// The press landed outside the 3D view or on a side panel.
    pub press_in_chrome: bool,
    /// The model being dragged in from the model list.
    pub dragging_model: Option<usize>,
    pub selected_object: Option<usize>,
    /// The object of the last click that selected something.
    pub last_clicked: Option<usize>,
    pub snap_selected_joint: Option<usize>,
    /// The first object picked with the rigging tool, waiting for its hand.
    pub rig_first: Option<usize>,
}

/// Hit-test results and settings for a press.
#[derive(Clone, Copy, PartialEq, Eq, Debug, Structural)]
pub struct PressInput {
    /// The grip-pose editor is open (it handles the press itself).
    pub grab_pose_open: bool,
    /// A text editor is open.
    pub editing_open: bool,
    pub in_editor_body: bool,
    pub in_center: bool,
    pub in_navigator: bool,
    pub in_inspector: bool,
    /// The edit view (not a play view) is shown.
    pub edit_view: bool,
    pub tool: Tool,
    /// The model chip under the pointer, inside the model list.
    pub chip: Option<usize>,
    /// A drop position for the dragged model is known.
    pub has_ghost: bool,
    /// Something is selected that the transform gizmo acts on.
    pub has_gizmo_target: bool,
    /// The transform gizmo handle under the pointer.
    pub gizmo_handle: Option<Axis>,
    /// The snap joint marker under the pointer.
    pub marker: Option<usize>,
    /// The view-navigation button under the pointer.
    pub nav_button: Option<NavPart>,
    /// The visible object under the pointer.
    pub picked: Option<usize>,
    /// The last selecting click was less than the double-click time ago.
    pub within_double_click: bool,
}

/// Work a press leaves to the window layer.
#[derive(Clone, Copy, PartialEq, Eq, Debug, Structural)]
pub enum PressAction {
    /// Hand the press to the grip-pose editor.
    GrabPoseEditor,
    Nothing,
    /// Add the dragged model to the scene at the drop position.
    PlaceModel(usize),
    /// Start dragging this transform gizmo handle.
    BeginGizmoDrag(Axis),
    /// Put the gizmo on this snap joint and start a free drag.
    BeginJointDrag(usize),
    /// Seed a grip pose of this object for this hand object.
    SeedGrip(usize, usize),
    /// An object was clicked: note the click time; `true` starts moving it
    /// (a double click).
    Clicked(usize, bool),
    /// The click hit nothing: forget the last click time.
    ClickedNothing,
}

/// Hit-test results and settings for a release.
#[derive(Clone, Copy, PartialEq, Eq, Debug, Structural)]
pub struct ReleaseInput {
    pub grab_pose_open: bool,
    pub editing_open: bool,
    pub in_center: bool,
    pub edit_view: bool,
    pub tool: Tool,
    /// The visible object under the pointer.
    pub picked: Option<usize>,
}

/// Work a release leaves to the window layer.
#[derive(Clone, Copy, PartialEq, Eq, Debug, Structural)]
pub enum ReleaseAction {
    GrabPoseEditor,
    /// `true`: end the transform gizmo drag.
    Done(bool),
}

/// Whether the press lands outside the 3D view or on a side panel.
pub open spec fn in_chrome(e: PressInput) -> bool {
    !e.in_center || e.in_navigator || e.in_inspector
}

/// The state right after a press, before it is given to anything.
pub open spec fn pressed(s: PointerState, e: PressInput) -> PointerState {
    PointerState {
        left_down: true,
        dragged: false,
        moving_object: false,
        gizmo_dragging: false,
        nav_drag: None,
        editor_focused: e.editing_open && e.in_editor_body,
        press_in_chrome: in_chrome(e),
        ..s
    }
}

/// The transform gizmo handle the press takes: only in the 3D view, with a
/// target.
pub open spec fn gizmo_hit(e: PressInput) -> Option<Axis> {
    if !in_chrome(e) && e.has_gizmo_target {
        e.gizmo_handle
    } else {
        None
    }
}

/// The snap marker the press takes: with the snap tool, in the 3D view, when
/// no gizmo handle was hit.
pub open spec fn marker_hit(e: PressInput) -> Option<usize> {
    if e.tool == Tool::Snap && !in_chrome(e) && gizmo_hit(e) is None {
        e.marker
    } else {
        None
    }
}

/// A press in the 3D view with a tool and no handle or button hit.
pub open spec fn tool_press(s: PointerState, e: PressInput) -> (PointerState, PressAction) {
    match e.tool {
        Tool::Rigging => match e.picked {
            None => (s, PressAction::Nothing),
            Some(id) => match s.rig_first {
                Some(first) => if first == id {
                    (PointerState { rig_first: None, dragged: true, ..s }, PressAction::Nothing)
                } else {
                    (
                        PointerState {
                            rig_first: None,
                            selected_object: Some(first),
                            dragged: true,
                            ..s
                        },
                        PressAction::SeedGrip(first, id),
                    )
                },
                None => (PointerState { rig_first: Some(id), dragged: true, ..s }, PressAction::Nothing),
            },
        },
        Tool::Snap => (
            PointerState {
                selected_object: e.picked,
                snap_selected_joint: None,
                dragged: true,
                ..s
            },
            PressAction::Nothing,
        ),
        Tool::Select => match e.picked {
            Some(id) => {
                let double = s.last_clicked == Some(id) && e.within_double_click;
                (
                    PointerState {
                        moving_object: if double {
                            true
                        } else {
                            s.moving_object
                        },
                        last_clicked: Some(id),
                        selected_object: Some(id),
                        ..s
                    },
                    PressAction::Clicked(id, double),
                )
            },
            None => (PointerState { last_clicked: None, ..s }, PressAction::ClickedNothing),
        },
    }
}

/// A left press: the model list first, then dropping a dragged model, then
/// a transform gizmo handle, a snap marker, a navigation button, and last
/// the active tool in the 3D view.
pub open spec fn left_press_spec(s: PointerState, e: PressInput) -> (PointerState, PressAction) {
    if e.grab_pose_open {
        (s, PressAction::GrabPoseEditor)
    } else {
        let s1 = pressed(s, e);
        if !(e.edit_view && !e.editing_open) {
            (s1, PressAction::Nothing)
        } else if let Some(i) = e.chip {
            (PointerState { dragging_model: Some(i), dragged: true, ..s1 }, PressAction::Nothing)
        } else if s1.dragging_model is Some && !in_chrome(e) {
            let m = s1.dragging_model->0;
            (
                PointerState { dragging_model: None, dragged: true, ..s1 },
                if e.has_ghost {
                    PressAction::PlaceModel(m)
                } else {
                    PressAction::Nothing
                },
            )
        } else if let Some(axis) = gizmo_hit(e) {
            (PointerState { gizmo_dragging: true, dragged: true, ..s1 }, PressAction::BeginGizmoDrag(axis))
        } else if let Some(j) = marker_hit(e) {
            (
                PointerState {
                    snap_selected_joint: Some(j),
                    gizmo_dragging: true,
                    dragged: true,
                    ..s1
                },
                PressAction::BeginJointDrag(j),
            )
        } else if let Some(part) = e.nav_button {
            (PointerState { nav_drag: Some(part), dragged: true, ..s1 }, PressAction::Nothing)
        } else if !in_chrome(e) {
            tool_press(s1, e)
        } else {
            (s1, PressAction::Nothing)
        }
    }
}

/// A left release: any drag ends; a plain click with the select tool in the
/// 3D view (not a drag, not the end of a move) selects the object under the
/// pointer, or nothing.
pub open spec fn left_release_spec(s: PointerState, e: ReleaseInput) -> (PointerState, ReleaseAction) {
    if e.grab_pose_open {
        (s, ReleaseAction::GrabPoseEditor)
    } else {
        let click = e.edit_view && !e.editing_open && e.tool == Tool::Select && !s.dragged
            && !s.moving_object && e.in_center && !s.press_in_chrome;
        (
            PointerState {
                left_down: false,
                nav_drag: None,
                gizmo_dragging: false,
                moving_object: false,
                dragged: false,
                selected_object: if click {
                    e.picked
                } else {
                    s.selected_object
                },
                ..s
            },
            ReleaseAction::Done(s.gizmo_dragging),
        )
    }
}

/// Law: with the select tool, a press in the 3D view on object `id` (no
/// model, handle, marker or button in the way) selects `id` and remembers
/// it as the last click; it starts moving the object (a double click) if
/// and only if the previous selecting click was on the same object within
/// the double-click time. A press on a different object never starts a move.
pub proof fn lemma_select_press_double_click(s: PointerState, e: PressInput, id: usize)
    requires
        e.tool == Tool::Select,
        !e.grab_pose_open,
        e.edit_view,
        !e.editing_open,
        !in_chrome(e),
        e.chip is None,
        s.dragging_model is None,
        gizmo_hit(e) is None,
        e.nav_button is None,
        e.picked == Some(id),
    ensures
        ({
            let (s2, a) = left_press_spec(s, e);
            let double = s.last_clicked == Some(id) && e.within_double_click;
            &&& s2.selected_object == Some(id)
            &&& s2.last_clicked == Some(id)
            &&& s2.moving_object == double
            &&& a == PressAction::Clicked(id, double)
            &&& s.last_clicked != Some(id) ==> !s2.moving_object && a == PressAction::Clicked(
                id,
                false,
            )
            &&& !e.within_double_click ==> !s2.moving_object
        }),
{
}

/// Law: with the select tool, a press in the 3D view on empty space selects
/// nothing new, forgets the last click and never starts a move.
pub proof fn lemma_select_press_on_nothing(s: PointerState, e: PressInput)
    requires
        e.tool == Tool::Select,
        !e.grab_pose_open,
        e.edit_view,
        !e.editing_open,
        !in_chrome(e),
        e.chip is None,
        s.dragging_model is None,
        gizmo_hit(e) is None,
        e.nav_button is None,
        e.picked is None,
    ensures
        ({
            let (s2, a) = left_press_spec(s, e);
            &&& s2.selected_object == s.selected_object
            &&& s2.last_clicked is None
            &&& !s2.moving_object
            &&& a == PressAction::ClickedNothing
        }),
{
}

/// Law: a release ends every drag (button, gizmo, navigation, object move),
/// reports whether a gizmo drag was under way, and changes the selection
/// only for a plain click with the select tool in the 3D view, which selects
/// what is under the pointer (or nothing).
pub proof fn lemma_release_ends_drags(s: PointerState, e: ReleaseInput)
    requires
        !e.grab_pose_open,
    ensures
        ({
            let (s2, a) = left_release_spec(s, e);
            let click = e.edit_view && !e.editing_open && e.tool == Tool::Select && !s.dragged
                && !s.moving_object && e.in_center && !s.press_in_chrome;
            &&& !s2.left_down && !s2.gizmo_dragging && !s2.moving_object && !s2.dragged
            &&& s2.nav_drag is None
            &&& a == ReleaseAction::Done(s.gizmo_dragging)
            &&& click ==> s2.selected_object == e.picked
            &&& !click ==> s2.selected_object == s.selected_object
            &&& s2.dragging_model == s.dragging_model && s2.rig_first == s.rig_first
            &&& s2.last_clicked == s.last_clicked
        }),
{
}

/// Law: a press over a model chip always starts dragging that model, and a
/// press starts a gizmo drag only on a handle in the 3D view with something
/// to move; a press never selects anything while the grip-pose editor is
/// open or a text editor is.
pub proof fn lemma_press_priorities(s: PointerState, e: PressInput)
    ensures
        e.chip matches Some(i) ==> (!e.grab_pose_open && e.edit_view && !e.editing_open
            ==> left_press_spec(s, e).0.dragging_model == Some(i) && left_press_spec(s, e).1
            == PressAction::Nothing),
        left_press_spec(s, e).1 matches PressAction::BeginGizmoDrag(ax) ==> e.gizmo_handle == Some(
            ax,
        ) && e.has_gizmo_target && !in_chrome(e) && left_press_spec(s, e).0.gizmo_dragging,
        left_press_spec(s, e).1 matches PressAction::PlaceModel(m) ==> s.dragging_model == Some(m)
            && e.has_ghost && left_press_spec(s, e).0.dragging_model is None,
        e.grab_pose_open ==> left_press_spec(s, e) == (s, PressAction::GrabPoseEditor),
        e.editing_open ==> left_press_spec(s, e).0.selected_object == s.selected_object,
        !e.grab_pose_open ==> left_press_spec(s, e).0.left_down,
        !e.grab_pose_open ==> left_press_spec(s, e).0.editor_focused == (e.editing_open
            && e.in_editor_body),
{
}

fn in_chrome_exec(e: &PressInput) -> (b: bool)
    ensures
        b == in_chrome(*e),
{
    !e.in_center || e.in_navigator || e.in_inspector
}

fn tool_press_exec(s: PointerState, e: &PressInput) -> (r: (PointerState, PressAction))
    ensures
        r == tool_press(s, *e),
{
    match e.tool {
        Tool::Rigging => match e.picked {
            None => (s, PressAction::Nothing),
            Some(id) => match s.rig_first {
                Some(first) => if first == id {
                    (PointerState { rig_first: None, dragged: true, ..s }, PressAction::Nothing)
                } else {
                    (
                        PointerState {
                            rig_first: None,
                            selected_object: Some(first),
                            dragged: true,
                            ..s
                        },
                        PressAction::SeedGrip(first, id),
                    )
                },
                None => (PointerState { rig_first: Some(id), dragged: true, ..s }, PressAction::Nothing),
            },
        },
        Tool::Snap => (
            PointerState {
                selected_object: e.picked,
                snap_selected_joint: None,
                dragged: true,
                ..s
            },
            PressAction::Nothing,
        ),
        Tool::Select => match e.picked {
            Some(id) => {
                let same = match s.last_clicked {
                    Some(l) => l == id,
                    None => false,
                };
                let double = same && e.within_double_click;
                (
                    PointerState {
                        moving_object: if double {
                            true
                        } else {
                            s.moving_object
                        },
                        last_clicked: Some(id),
                        selected_object: Some(id),
                        ..s
                    },
                    PressAction::Clicked(id, double),
                )
            },
            None => (PointerState { last_clicked: None, ..s }, PressAction::ClickedNothing),
        },
    }
}

/// The state and the window layer's work after a left press.
pub fn left_press(s: &PointerState, e: &PressInput) -> (r: (PointerState, PressAction))
    ensures
        r == left_press_spec(*s, *e),
{
    if e.grab_pose_open {
        return (*s, PressAction::GrabPoseEditor);
    }
    let chrome = in_chrome_exec(e);
    let s1 = PointerState {
        left_down: true,
        dragged: false,
        moving_object: false,
        gizmo_dragging: false,
        nav_drag: None,
        editor_focused: e.editing_open && e.in_editor_body,
        press_in_chrome: chrome,
        ..*s
    };
    if !(e.edit_view && !e.editing_open) {
        return (s1, PressAction::Nothing);
    }
    if let Some(i) = e.chip {
        return (PointerState { dragging_model: Some(i), dragged: true, ..s1 }, PressAction::Nothing);
    }
    if let Some(m) = s1.dragging_model {
        if !chrome {
            let a = if e.has_ghost {
                PressAction::PlaceModel(m)
            } else {
                PressAction::Nothing
            };
            return (PointerState { dragging_model: None, dragged: true, ..s1 }, a);
        }
    }
    let gizmo = if !chrome && e.has_gizmo_target {
        e.gizmo_handle
    } else {
        None
    };
    if let Some(axis) = gizmo {
        return (
            PointerState { gizmo_dragging: true, dragged: true, ..s1 },
            PressAction::BeginGizmoDrag(axis),
        );
    }
    let marker = if e.tool == Tool::Snap && !chrome {
        e.marker
    } else {
        None
    };
    if let Some(j) = marker {
        return (
            PointerState {
                snap_selected_joint: Some(j),
                gizmo_dragging: true,
                dragged: true,
                ..s1
            },
            PressAction::BeginJointDrag(j),
        );
    }
    if let Some(part) = e.nav_button {
        return (PointerState { nav_drag: Some(part), dragged: true, ..s1 }, PressAction::Nothing);
    }
    if !chrome {
        tool_press_exec(s1, e)
    } else {
        (s1, PressAction::Nothing)
    }
}

/// The state and the window layer's work after a left release.
pub fn left_release(s: &PointerState, e: &ReleaseInput) -> (r: (PointerState, ReleaseAction))
    ensures
        r == left_release_spec(*s, *e),
{
    if e.grab_pose_open {
        return (*s, ReleaseAction::GrabPoseEditor);
    }
    let click = e.edit_view && !e.editing_open && e.tool == Tool::Select && !s.dragged
        && !s.moving_object && e.in_center && !s.press_in_chrome;
    (
        PointerState {
            left_down: false,
            nav_drag: None,
            gizmo_dragging: false,
            moving_object: false,
            dragged: false,
            selected_object: if click {
                e.picked
            } else {
                s.selected_object
            },
            ..*s
        },
        ReleaseAction::Done(s.gizmo_dragging),
    )
}

/// Hit-test results and settings for a pointer move.
#[derive(Clone, Copy, PartialEq, Eq, Debug, Structural)]
pub struct MoveInput {
    pub grab_pose_open: bool,
    pub editing_open: bool,
    pub edit_view: bool,
    pub tool: Tool,
    /// Something is selected that the transform gizmo acts on.
    pub has_gizmo_target: bool,
    /// The pointer is over the 3D view and not over a side panel.
    pub over_viewport: bool,
    /// The pointer moved by more than half a pixel along some axis.
    pub moved_enough: bool,
}

/// What dragging with the left button does on a move.
#[derive(Clone, Copy, PartialEq, Eq, Debug, Structural)]
pub enum DragWork {
    Idle,
    /// Drag the transform gizmo; `true` moves the selected snap joint, else
    /// the selected object.
    Gizmo(bool),
    /// Orbit, pan or zoom the view by the pointer's motion.
    Navigate(NavPart),
    /// Move this object along the ground plane under the pointer.
    MoveObject(usize),
    /// Turn the view by the pointer's motion.
    Look,
}

/// Work a pointer move leaves to the window layer.
#[derive(Clone, Copy, PartialEq, Eq, Debug, Structural)]
pub enum MoveAction {
    GrabPoseEditor,
    /// `hover`: test which gizmo handle is under the pointer (else none is);
    /// the drag work; `ghost`: update the dragged model's drop position.
    Moved(bool, DragWork, bool),
}

/// A pointer move: gizmo hover, then the drag the button is doing, then the
/// dragged model's drop position.
pub open spec fn pointer_moved_spec(s: PointerState, e: MoveInput) -> (PointerState, MoveAction) {
    if e.grab_pose_open {
        (s, MoveAction::GrabPoseEditor)
    } else {
        let editing_view = e.edit_view && !e.editing_open;
        let hover = editing_view && e.has_gizmo_target && !s.gizmo_dragging && e.over_viewport;
        let work = if !(s.left_down && editing_view) {
            DragWork::Idle
        } else if s.gizmo_dragging {
            DragWork::Gizmo(e.tool == Tool::Snap)
        } else if let Some(part) = s.nav_drag {
            DragWork::Navigate(part)
        } else if s.moving_object {
            match s.selected_object {
                Some(id) => DragWork::MoveObject(id),
                None => DragWork::Idle,
            }
        } else if !s.press_in_chrome && e.moved_enough {
            DragWork::Look
        } else {
            DragWork::Idle
        };
        (
            PointerState { dragged: if work is Idle { s.dragged } else { true }, ..s },
            MoveAction::Moved(hover, work, s.dragging_model is Some),
        )
    }
}

/// The state and the window layer's work after the pointer moved.
pub fn pointer_moved(s: &PointerState, e: &MoveInput) -> (r: (PointerState, MoveAction))
    ensures
        r == pointer_moved_spec(*s, *e),
{
    if e.grab_pose_open {
        return (*s, MoveAction::GrabPoseEditor);
    }
    let editing_view = e.edit_view && !e.editing_open;
    let hover = editing_view && e.has_gizmo_target && !s.gizmo_dragging && e.over_viewport;
    let work = if !(s.left_down && editing_view) {
        DragWork::Idle
    } else if s.gizmo_dragging {
        DragWork::Gizmo(e.tool == Tool::Snap)
    } else if let Some(part) = s.nav_drag {
        DragWork::Navigate(part)
    } else if s.moving_object {
        match s.selected_object {
            Some(id) => DragWork::MoveObject(id),
            None => DragWork::Idle,
        }
    } else if !s.press_in_chrome && e.moved_enough {
        DragWork::Look
    } else {
        DragWork::Idle
    };
    let dragged = match work {
        DragWork::Idle => s.dragged,
        _ => true,
    };
    (PointerState { dragged, ..*s }, MoveAction::Moved(hover, work, s.dragging_model.is_some()))
}

/// Law: a move drags only while the button is held in the edit view, and
/// then in this order of precedence: a gizmo drag (moving the snap joint
/// with the snap tool, else the object), a navigation button, moving the
/// selected object, and turning the view once the pointer really moved
/// from a press in the 3D view. Any drag marks the press as dragged; the
/// hover test runs only in the 3D view when no gizmo drag is under way;
/// the drop position follows only while a model is dragged.
pub proof fn lemma_move_drags(s: PointerState, e: MoveInput)
    requires
        !e.grab_pose_open,
    ensures
        ({
            let (s2, a) = pointer_moved_spec(s, e);
            let held = s.left_down && e.edit_view && !e.editing_open;
            &&& a matches MoveAction::Moved(hover, work, ghost)
            &&& (a matches MoveAction::Moved(hover, work, ghost) ==> {
                &&& !held ==> work == DragWork::Idle
                &&& held && s.gizmo_dragging ==> work == DragWork::Gizmo(e.tool == Tool::Snap)
                &&& held && !s.gizmo_dragging && s.nav_drag is Some ==> work == DragWork::Navigate(
                    s.nav_drag->0,
                )
                &&& work == DragWork::Look ==> held && !s.press_in_chrome && e.moved_enough
                    && !s.gizmo_dragging && s.nav_drag is None && !s.moving_object
                &&& (work matches DragWork::MoveObject(id) ==> s.moving_object && s.selected_object
                    == Some(id))
                &&& hover ==> e.over_viewport && e.has_gizmo_target && !s.gizmo_dragging
                &&& ghost == (s.dragging_model is Some)
                &&& s2.dragged == (s.dragged || work != DragWork::Idle)
            })
            &&& s2.left_down == s.left_down && s2.selected_object == s.selected_object
        }),
{
}

} // verus!
