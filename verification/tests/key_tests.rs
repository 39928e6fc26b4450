use space_soup_editor::keys::{
    anim_sim_key_action, editor_key_action, fly_active, fly_dir, grab_pose_key_action, typed_chars,
    winit_key_to_agate, AnimSimAction, EditorAction, FlyDir, GrabPoseAction, Key, NamedKey, UiKey,
};

fn ch(s: &str) -> Key {
    Key::Character(s.to_string())
}

#[test]
fn fly_keys() {
    assert_eq!(fly_dir(&ch("w")), Some(FlyDir::Forward));
    assert_eq!(fly_dir(&ch("S")), Some(FlyDir::Back));
    assert_eq!(fly_dir(&ch("a")), Some(FlyDir::Left));
    assert_eq!(fly_dir(&ch("D")), Some(FlyDir::Right));
    assert_eq!(fly_dir(&ch("e")), Some(FlyDir::Up));
    assert_eq!(fly_dir(&ch("q")), Some(FlyDir::Down));
    assert_eq!(fly_dir(&Key::Named(NamedKey::Space)), Some(FlyDir::Up));
    assert_eq!(fly_dir(&Key::Named(NamedKey::Control)), Some(FlyDir::Down));
    assert_eq!(fly_dir(&ch("x")), None);
    assert_eq!(fly_dir(&ch("ww")), None);
    assert_eq!(fly_dir(&Key::Named(NamedKey::Enter)), None);
    assert!(fly_active(true, false, false, false));
    assert!(!fly_active(true, false, true, false));
    assert!(!fly_active(false, false, false, false));
    assert!(!fly_active(true, false, false, true));
}

#[test]
fn ui_key_mapping() {
    assert_eq!(winit_key_to_agate(&Key::Named(NamedKey::Home)), Some(UiKey::Home));
    assert_eq!(winit_key_to_agate(&Key::Named(NamedKey::Escape)), Some(UiKey::Escape));
    assert_eq!(winit_key_to_agate(&Key::Named(NamedKey::Space)), None);
    assert_eq!(winit_key_to_agate(&ch("a")), None);
}

#[test]
fn editor_keys() {
    assert_eq!(editor_key_action(&Key::Named(NamedKey::ArrowLeft), false, true), EditorAction::MoveLeft(true));
    assert_eq!(editor_key_action(&Key::Named(NamedKey::PageDown), false, false), EditorAction::Page(true, false));
    assert_eq!(editor_key_action(&Key::Named(NamedKey::Tab), false, false), EditorAction::InsertIndent);
    assert_eq!(editor_key_action(&ch("s"), true, false), EditorAction::Save);
    assert_eq!(editor_key_action(&ch("Z"), true, true), EditorAction::Redo);
    assert_eq!(editor_key_action(&ch("z"), true, false), EditorAction::Undo);
    assert_eq!(editor_key_action(&ch("q"), true, false), EditorAction::Nothing);
    assert_eq!(editor_key_action(&ch("q"), false, false), EditorAction::TypeText);
    assert_eq!(editor_key_action(&Key::Named(NamedKey::Escape), false, false), EditorAction::TypeText);
    assert_eq!(editor_key_action(&Key::Named(NamedKey::Escape), true, false), EditorAction::Nothing);
}

#[test]
fn typed_chars_drop_controls() {
    assert_eq!(typed_chars("a\u{7}b\u{9c}\té"), vec!['a', 'b', 'é']);
    assert!(typed_chars("\r").is_empty());
}

#[test]
fn anim_sim_keys() {
    assert_eq!(anim_sim_key_action(&ch("z"), true, false, true, false), AnimSimAction::Undo);
    assert_eq!(anim_sim_key_action(&ch("c"), true, false, false, false), AnimSimAction::CopyKey);
    assert_eq!(anim_sim_key_action(&ch("c"), true, false, true, false), AnimSimAction::Nothing);
    assert_eq!(anim_sim_key_action(&ch("k"), false, false, true, false), AnimSimAction::TypeText);
    assert_eq!(anim_sim_key_action(&ch("K"), false, false, false, false), AnimSimAction::AddKey);
    assert_eq!(anim_sim_key_action(&Key::Named(NamedKey::Space), false, false, false, true), AnimSimAction::Nothing);
    assert_eq!(anim_sim_key_action(&Key::Named(NamedKey::Space), false, false, false, false), AnimSimAction::TogglePlay);
    assert_eq!(anim_sim_key_action(&Key::Named(NamedKey::Backspace), false, false, false, false), AnimSimAction::DeleteKey);
    assert_eq!(anim_sim_key_action(&Key::Named(NamedKey::ArrowLeft), false, false, false, false), AnimSimAction::StepBack);
    assert_eq!(anim_sim_key_action(&Key::Named(NamedKey::ArrowRight), true, false, false, false), AnimSimAction::Nothing);
}

#[test]
fn grab_pose_keys() {
    assert_eq!(grab_pose_key_action(&Key::Named(NamedKey::Escape), false, false, false, true), GrabPoseAction::CancelExit);
    assert_eq!(grab_pose_key_action(&Key::Named(NamedKey::Escape), false, false, true, false), GrabPoseAction::RequestExit);
    assert_eq!(grab_pose_key_action(&ch("z"), true, true, false, false), GrabPoseAction::Redo);
    assert_eq!(grab_pose_key_action(&ch("x"), true, false, true, false), GrabPoseAction::Nothing);
    assert_eq!(grab_pose_key_action(&ch("x"), false, false, true, false), GrabPoseAction::TypeText);
    assert_eq!(grab_pose_key_action(&ch("x"), false, false, false, false), GrabPoseAction::Nothing);
}
