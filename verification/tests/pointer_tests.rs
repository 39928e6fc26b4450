use space_soup_editor::gizmo::Axis;
use space_soup_editor::pointer::{
    left_press, left_release, pointer_moved, DragWork, MoveAction, MoveInput, NavPart,
    PointerState, PressAction, PressInput, ReleaseAction, ReleaseInput, Tool,
};

fn idle() -> PointerState {
    PointerState {
        left_down: false,
        dragged: false,
        moving_object: false,
        gizmo_dragging: false,
        nav_drag: None,
        editor_focused: false,
        press_in_chrome: false,
        dragging_model: None,
        selected_object: None,
        last_clicked: None,
        snap_selected_joint: None,
        rig_first: None,
    }
}

fn in_view(tool: Tool, picked: Option<usize>) -> PressInput {
    PressInput {
        grab_pose_open: false,
        editing_open: false,
        in_editor_body: false,
        in_center: true,
        in_navigator: false,
        in_inspector: false,
        edit_view: true,
        tool,
        chip: None,
        has_ghost: false,
        has_gizmo_target: false,
        gizmo_handle: None,
        marker: None,
        nav_button: None,
        picked,
        within_double_click: false,
    }
}

fn release(tool: Tool, picked: Option<usize>) -> ReleaseInput {
    ReleaseInput {
        grab_pose_open: false,
        editing_open: false,
        in_center: true,
        edit_view: true,
        tool,
        picked,
    }
}

#[test]
fn select_click_and_double_click() {
    let (s, a) = left_press(&idle(), &in_view(Tool::Select, Some(3)));
    assert_eq!(a, PressAction::Clicked(3, false));
    assert_eq!(s.selected_object, Some(3));
    assert!(s.left_down && !s.dragged);
    let (s, a) = left_release(&s, &release(Tool::Select, Some(3)));
    assert_eq!(a, ReleaseAction::Done(false));
    assert_eq!(s.selected_object, Some(3));
    let mut e = in_view(Tool::Select, Some(3));
    e.within_double_click = true;
    let (s, a) = left_press(&s, &e);
    assert_eq!(a, PressAction::Clicked(3, true));
    assert!(s.moving_object);
    // Releasing the move does not reselect.
    let (s, _) = left_release(&s, &release(Tool::Select, None));
    assert_eq!(s.selected_object, Some(3));
    assert!(!s.moving_object);
    // A click on empty space forgets the last click; the release clears the selection.
    let (s, a) = left_press(&s, &in_view(Tool::Select, None));
    assert_eq!(a, PressAction::ClickedNothing);
    assert_eq!(s.last_clicked, None);
    let (s, _) = left_release(&s, &release(Tool::Select, None));
    assert_eq!(s.selected_object, None);
}

#[test]
fn model_chip_drag_and_drop() {
    let mut e = in_view(Tool::Select, None);
    e.chip = Some(2);
    let (s, a) = left_press(&idle(), &e);
    assert_eq!((s.dragging_model, s.dragged, a), (Some(2), true, PressAction::Nothing));
    let (s, _) = left_release(&s, &release(Tool::Select, None));
    let mut e = in_view(Tool::Select, None);
    e.has_ghost = true;
    let (s, a) = left_press(&s, &e);
    assert_eq!(a, PressAction::PlaceModel(2));
    assert_eq!(s.dragging_model, None);
    // A drop without a drop position places nothing.
    let mut st = idle();
    st.dragging_model = Some(1);
    let (s, a) = left_press(&st, &in_view(Tool::Select, None));
    assert_eq!((a, s.dragging_model), (PressAction::Nothing, None));
    // Over a side panel the model stays dragged.
    let mut e = in_view(Tool::Select, None);
    e.in_navigator = true;
    let (s, _) = left_press(&st, &e);
    assert_eq!(s.dragging_model, Some(1));
    assert!(s.press_in_chrome);
}

#[test]
fn gizmo_marker_and_navigation_order() {
    let mut e = in_view(Tool::Snap, Some(0));
    e.gizmo_handle = Some(Axis::XY);
    e.marker = Some(4);
    e.nav_button = Some(NavPart::Pan);
    // No gizmo target: the handle does not count, the marker does.
    let (s, a) = left_press(&idle(), &e);
    assert_eq!(a, PressAction::BeginJointDrag(4));
    assert_eq!(s.snap_selected_joint, Some(4));
    assert!(s.gizmo_dragging);
    let (s2, a2) = left_release(&s, &release(Tool::Snap, None));
    assert_eq!(a2, ReleaseAction::Done(true));
    assert!(!s2.gizmo_dragging);
    e.has_gizmo_target = true;
    let (_, a) = left_press(&idle(), &e);
    assert_eq!(a, PressAction::BeginGizmoDrag(Axis::XY));
    let mut e = in_view(Tool::Select, Some(0));
    e.nav_button = Some(NavPart::Zoom);
    let (s, a) = left_press(&idle(), &e);
    assert_eq!((s.nav_drag, a), (Some(NavPart::Zoom), PressAction::Nothing));
    // Snap tool on an object selects it and drops the joint selection.
    let mut st = idle();
    st.snap_selected_joint = Some(1);
    let (s, _) = left_press(&st, &in_view(Tool::Snap, Some(5)));
    assert_eq!((s.selected_object, s.snap_selected_joint), (Some(5), None));
}

#[test]
fn rigging_pairs_object_and_hand() {
    let (s, a) = left_press(&idle(), &in_view(Tool::Rigging, Some(7)));
    assert_eq!((s.rig_first, a), (Some(7), PressAction::Nothing));
    let (s2, _) = left_press(&s, &in_view(Tool::Rigging, Some(7)));
    assert_eq!(s2.rig_first, None);
    let (s3, a3) = left_press(&s, &in_view(Tool::Rigging, Some(9)));
    assert_eq!(a3, PressAction::SeedGrip(7, 9));
    assert_eq!((s3.rig_first, s3.selected_object), (None, Some(7)));
}

#[test]
fn presses_outside_the_edit_view() {
    let mut e = in_view(Tool::Select, Some(1));
    e.grab_pose_open = true;
    let (s, a) = left_press(&idle(), &e);
    assert_eq!((s, a), (idle(), PressAction::GrabPoseEditor));
    let mut e = in_view(Tool::Select, Some(1));
    e.editing_open = true;
    e.in_editor_body = true;
    let (s, a) = left_press(&idle(), &e);
    assert!(s.editor_focused && s.left_down);
    assert_eq!((s.selected_object, a), (None, PressAction::Nothing));
}

fn moving(tool: Tool, moved_enough: bool) -> MoveInput {
    MoveInput {
        grab_pose_open: false,
        editing_open: false,
        edit_view: true,
        tool,
        has_gizmo_target: true,
        over_viewport: true,
        moved_enough,
    }
}

#[test]
fn pointer_moves_drive_the_current_drag() {
    // Button up: hover only, no drag.
    let (s, a) = pointer_moved(&idle(), &moving(Tool::Select, true));
    assert_eq!(a, MoveAction::Moved(true, DragWork::Idle, false));
    assert!(!s.dragged);
    // A press in empty space then a real move turns the view.
    let (s, _) = left_press(&idle(), &in_view(Tool::Select, None));
    let (s1, a) = pointer_moved(&s, &moving(Tool::Select, false));
    assert_eq!((a, s1.dragged), (MoveAction::Moved(true, DragWork::Idle, false), false));
    let (s2, a) = pointer_moved(&s, &moving(Tool::Select, true));
    assert_eq!((a, s2.dragged), (MoveAction::Moved(true, DragWork::Look, false), true));
    // A gizmo drag: no hover, the snap tool moves the joint.
    let mut st = s;
    st.gizmo_dragging = true;
    let (_, a) = pointer_moved(&st, &moving(Tool::Snap, false));
    assert_eq!(a, MoveAction::Moved(false, DragWork::Gizmo(true), false));
    // Navigation buttons and object moves.
    let mut st = s;
    st.nav_drag = Some(NavPart::Orbit);
    let (_, a) = pointer_moved(&st, &moving(Tool::Select, false));
    assert_eq!(a, MoveAction::Moved(true, DragWork::Navigate(NavPart::Orbit), false));
    let mut st = s;
    st.moving_object = true;
    st.selected_object = Some(6);
    st.dragging_model = Some(0);
    let (_, a) = pointer_moved(&st, &moving(Tool::Select, false));
    assert_eq!(a, MoveAction::Moved(true, DragWork::MoveObject(6), true));
}
