use space_soup_editor::anim_sim::{
    button_label, clamp_selection, field_code, next_binding_anim, next_binding_button,
    retarget_bindings, select_anim_selection, select_key_selection, unique_anim_name, KeyField,
};
use space_soup_editor::discover::{game_dir, is_json_extension, is_model_extension};
use space_soup_editor::edit_history::{EditHistory, EditKey};
use space_soup_editor::gizmo::{all_axes_for, axis_base_color, color_for, Axis, ColorState, GizmoMode};
use space_soup_editor::grab_pose::{
    can_delete_point, default_grip_name, finger_field_code, hand_cache_key, hand_glb_path,
    hand_tag, hand_view_after_add, marker_color, reselect, select_point, GripKind, Hand, HandView,
    PoseField, Rgba,
};
use space_soup_editor::inspector;
use space_soup_editor::naming::{contains_name, first_free_name, rename_target, trim};
use space_soup_editor::nav::{nav_rows, NavGroup, NavRow};
use space_soup_editor::scene_bridge;

fn strings(v: &[&str]) -> Vec<String> {
    v.iter().map(|s| s.to_string()).collect()
}

#[test]
fn history_records_and_undoes() {
    let mut h: EditHistory<u32> = EditHistory::new();
    assert!(!h.can_undo());
    h.record(1, 2, None, true);
    h.record(2, 3, None, true);
    assert!(h.can_undo());
    assert!(h.undo());
    assert_eq!(h.redo_top().unwrap().before, 2);
    assert!(h.undo());
    assert_eq!(h.redo_top().unwrap().before, 1);
    assert!(!h.undo());
    assert!(h.redo());
    assert_eq!(h.undo_top().unwrap().after, 2);
    assert!(h.can_redo());
    h.record(2, 9, None, true);
    assert!(!h.can_redo());
}

#[test]
fn history_ignores_unchanged_edits() {
    let mut h: EditHistory<u32> = EditHistory::new();
    h.record(4, 4, Some(EditKey(0, 0, 1)), false);
    assert!(!h.can_undo());
    assert_eq!(h.active(), None);
}

#[test]
fn history_coalesces_a_drag() {
    let mut h: EditHistory<u32> = EditHistory::new();
    let k = Some(EditKey(1, 2, 3));
    h.record(0, 1, k, true);
    h.record(1, 2, k, true);
    h.record(2, 3, k, true);
    let top = h.undo_top().unwrap();
    assert_eq!((top.before, top.after), (0, 3));
    assert!(h.undo());
    assert!(!h.can_undo());
    h.record(5, 6, k, true);
    h.end_coalesce();
    h.record(6, 7, k, true);
    assert!(h.undo());
    assert!(h.undo());
    assert!(!h.undo());
}

#[test]
fn history_different_drag_starts_new_entry() {
    let mut h: EditHistory<u32> = EditHistory::new();
    h.record(0, 1, Some(EditKey(0, 0, 1)), true);
    h.record(1, 2, Some(EditKey(0, 0, 2)), true);
    assert!(h.undo());
    assert!(h.undo());
    assert!(!h.can_undo());
}

#[test]
fn history_caps_at_one_hundred() {
    let mut h: EditHistory<u32> = EditHistory::new();
    for i in 0..150u32 {
        h.record(i, i + 1, None, true);
    }
    let mut n = 0;
    while h.undo() {
        n += 1;
    }
    assert_eq!(n, 100);
    assert_eq!(h.redo_top().unwrap().before, 50);
}

#[test]
fn undo_then_redo_law_on_values() {
    let mut h: EditHistory<u32> = EditHistory::new();
    h.record(1, 2, None, true);
    h.record(2, 3, None, true);
    h.undo();
    h.redo();
    assert_eq!(h.undo_top().unwrap().after, 3);
    assert!(!h.can_redo());
}

#[test]
fn button_labels() {
    assert_eq!(button_label("btn_a"), "A");
    assert_eq!(button_label("btn_y"), "Y");
    assert_eq!(button_label("trigger"), "Trigger");
    assert_eq!(button_label("grip"), "Grip");
    assert_eq!(button_label("nope"), "?");
}

#[test]
fn key_field_codes() {
    assert_eq!(field_code(KeyField::T), 0);
    assert_eq!(field_code(KeyField::Pos(2)), 3);
    assert_eq!(field_code(KeyField::RotEuler(0)), 4);
    assert_eq!(field_code(KeyField::Scale(1)), 8);
    assert_eq!(space_soup_editor::grab_pose::field_code(PoseField::Pos(0)), 1);
    assert_eq!(space_soup_editor::grab_pose::field_code(PoseField::Rot(2)), 6);
    assert_eq!(space_soup_editor::grab_pose::field_code(PoseField::Scale(2)), 9);
    assert_eq!(finger_field_code(3), 13);
}

#[test]
fn anim_names() {
    assert_eq!(unique_anim_name(&vec![], "anim"), "anim_1");
    assert_eq!(unique_anim_name(&strings(&["anim_1", "anim_2"]), "anim"), "anim_3");
    assert_eq!(unique_anim_name(&vec![], "walk"), "walk");
    assert_eq!(unique_anim_name(&strings(&["walk"]), "walk"), "walk_2");
    assert_eq!(unique_anim_name(&strings(&["walk", "walk_2", "walk_3"]), "walk"), "walk_4");
}

#[test]
fn anim_selection_clamping() {
    assert_eq!(clamp_selection(3, Some(1), &vec![]), (0, None));
    assert_eq!(clamp_selection(5, Some(9), &vec![2, 4]), (1, Some(3)));
    assert_eq!(clamp_selection(0, Some(0), &vec![0, 4]), (0, None));
    assert_eq!(clamp_selection(0, None, &vec![3]), (0, None));
    assert_eq!(select_anim_selection(1, &vec![2, 0]), (1, None));
    assert_eq!(select_anim_selection(7, &vec![2, 5]), (1, Some(0)));
    assert_eq!(select_anim_selection(0, &vec![]), (0, None));
    assert_eq!(select_key_selection(0, 6, &vec![3]), (0, Some(2)));
}

#[test]
fn bindings_follow_rename_and_delete() {
    let mut b = strings(&["walk", "run", "walk"]);
    retarget_bindings(&mut b, &"walk".to_string(), &"stroll".to_string());
    assert_eq!(b, strings(&["stroll", "run", "stroll"]));
    retarget_bindings(&mut b, &"run".to_string(), &String::new());
    assert_eq!(b, strings(&["stroll", "", "stroll"]));
}

#[test]
fn bindings_cycle_buttons_and_animations() {
    let buttons = strings(&["a", "b", "x", "y"]);
    assert_eq!(next_binding_button(&buttons, &"a".to_string()), 1);
    assert_eq!(next_binding_button(&buttons, &"y".to_string()), 0);
    assert_eq!(next_binding_button(&buttons, &"zz".to_string()), 1);
    let anims = strings(&["idle", "walk", "idle"]);
    assert_eq!(next_binding_anim(&anims, &"idle".to_string()), Some(1));
    assert_eq!(next_binding_anim(&anims, &"walk".to_string()), Some(2));
    assert_eq!(next_binding_anim(&anims, &String::new()), Some(0));
    assert_eq!(next_binding_anim(&Vec::new(), &"idle".to_string()), None);
}

#[test]
fn rename_rules() {
    let names = strings(&["a", "b"]);
    assert_eq!(rename_target(&names, 0, "  c \t"), Some("c".to_string()));
    assert_eq!(rename_target(&names, 0, "b"), None);
    assert_eq!(rename_target(&names, 1, " b "), Some("b".to_string()));
    assert_eq!(rename_target(&names, 0, "   "), None);
    assert_eq!(rename_target(&names, 5, "z"), None);
}

#[test]
fn trim_white_space() {
    assert_eq!(trim("  x y \n"), "x y");
    assert_eq!(trim("\u{3000}z\u{a0}"), "z");
    assert_eq!(trim(" \t "), "");
    assert_eq!(trim("q"), "q");
}

#[test]
fn first_free_name_and_membership() {
    let taken = strings(&["x_2", "x"]);
    assert!(contains_name(&taken, &"x".to_string()));
    assert!(!contains_name(&taken, &"y".to_string()));
    assert_eq!(first_free_name(&taken, "x", "", true, 1), "x_3");
    assert_eq!(first_free_name(&taken, "x", ".glb", false, 2), "x_2.glb");
}

#[test]
fn grip_names_and_paths() {
    assert_eq!(default_grip_name(&vec![], Hand::Right), "right_grip");
    assert_eq!(default_grip_name(&strings(&["left_grip"]), Hand::Left), "left_grip_2");
    assert_eq!(hand_glb_path(Hand::Left), "models/left_hand.glb");
    assert_eq!(hand_cache_key(Hand::Right), "__grabpose_skinned__/models/right_hand.glb");
    assert_eq!(hand_tag(Hand::Left), "L");
    assert_eq!(hand_tag(Hand::Right), "R");
}

#[test]
fn hand_views() {
    assert!(HandView::All.shows(Hand::Left));
    assert!(HandView::Left.shows(Hand::Left));
    assert!(!HandView::Left.shows(Hand::Right));
    let hands = vec![Hand::Right, Hand::Left, Hand::Left];
    assert_eq!(reselect(HandView::Left, 0, &hands), Some(1));
    assert_eq!(reselect(HandView::Left, 2, &hands), None);
    assert_eq!(reselect(HandView::Right, 2, &hands), Some(0));
    assert_eq!(reselect(HandView::Right, 0, &vec![Hand::Left]), None);
    assert_eq!(hand_view_after_add(HandView::All, Hand::Left), HandView::All);
    assert_eq!(hand_view_after_add(HandView::Right, Hand::Left), HandView::Left);
}

#[test]
fn point_selection_and_deletion() {
    assert_eq!(select_point(5, 3), 2);
    assert_eq!(select_point(1, 3), 1);
    assert_eq!(select_point(4, 0), 0);
    assert!(!can_delete_point(1));
    assert!(can_delete_point(2));
}

#[test]
fn marker_colours() {
    assert_eq!(marker_color(GripKind::Snap, true), Rgba(90, 225, 255, 255));
    assert_eq!(marker_color(GripKind::Pinch, false), Rgba(150, 60, 130, 255));
    assert_eq!(marker_color(GripKind::Free, true), Rgba(255, 195, 60, 255));
}

#[test]
fn scene_ids_and_voxel_names() {
    assert_eq!(scene_bridge::unique_id(&strings(&["box"]), "crate"), "crate");
    assert_eq!(scene_bridge::unique_id(&strings(&["crate", "crate_2"]), "crate"), "crate_3");
    assert_eq!(scene_bridge::unique_voxel_filename(&vec![], "tree"), "tree_voxel.glb");
    assert_eq!(
        scene_bridge::unique_voxel_filename(&strings(&["tree_voxel.glb", "tree_voxel_2.glb"]), "tree"),
        "tree_voxel_3.glb"
    );
    assert_eq!(scene_bridge::model_rel_path("a.glb"), "models/a.glb");
}

#[test]
fn inspector_ids_and_script_stub() {
    assert_eq!(inspector::unique_id(&vec![], "crate"), "crate_2");
    assert_eq!(inspector::unique_id(&strings(&["crate_2"]), "crate_2"), "crate_3");
    assert_eq!(inspector::unique_id(&vec![], "42"), "42_2");
    assert_eq!(inspector::unique_id(&vec![], "lamp__07"), "lamp_2");
    assert_eq!(
        inspector::default_script_stub("door"),
        "// Script for 'door'\n\nfn on_update(dt) {\n}\n"
    );
}

#[test]
fn gizmo_handles_and_colours() {
    assert_eq!(
        all_axes_for(GizmoMode::Translate),
        vec![Axis::X, Axis::Y, Axis::Z, Axis::XY, Axis::XZ, Axis::YZ, Axis::XYZ]
    );
    assert_eq!(all_axes_for(GizmoMode::Rotate), vec![Axis::X, Axis::Y, Axis::Z, Axis::XYZ]);
    assert_eq!(all_axes_for(GizmoMode::Scale), vec![Axis::X, Axis::Y, Axis::Z, Axis::XYZ]);
    assert_eq!(axis_base_color(Axis::YZ), Rgba(225, 40, 40, 160));
    assert_eq!(color_for(Axis::X, ColorState::Normal), Rgba(225, 40, 40, 255));
    assert_eq!(color_for(Axis::X, ColorState::Hover), Rgba(255, 220, 40, 255));
    assert_eq!(color_for(Axis::XYZ, ColorState::Selected), Rgba(255, 220, 40, 255));
}

#[test]
fn navigator_rows() {
    let rows = nav_rows(true, 2, true, &strings(&["cube"]));
    assert_eq!(
        rows,
        vec![
            NavRow::GroupHeader { group: NavGroup::Scenes },
            NavRow::SceneFile { file_index: 0 },
            NavRow::SceneFile { file_index: 1 },
            NavRow::GroupHeader { group: NavGroup::Objects },
            NavRow::Object { object_id: "cube".to_string() },
        ]
    );
    let rows = nav_rows(true, 0, false, &strings(&["cube"]));
    assert_eq!(
        rows,
        vec![
            NavRow::GroupHeader { group: NavGroup::Scenes },
            NavRow::EmptyHint { group: NavGroup::Scenes },
            NavRow::GroupHeader { group: NavGroup::Objects },
        ]
    );
    let rows = nav_rows(false, 3, true, &vec![]);
    assert_eq!(rows.len(), 3);
    assert_eq!(rows[2], NavRow::EmptyHint { group: NavGroup::Objects });
}

#[test]
fn discovery_helpers() {
    assert_eq!(game_dir(), "../game");
    assert!(is_model_extension("glb"));
    assert!(is_model_extension("GLTF"));
    assert!(is_model_extension("GlB"));
    assert!(!is_model_extension("obj"));
    assert!(!is_model_extension("glbx"));
    assert!(is_json_extension("json"));
    assert!(!is_json_extension("JSON"));
}
