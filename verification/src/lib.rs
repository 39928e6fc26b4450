use vstd::prelude::*;

pub mod chars;
pub mod pos;
pub mod std_string;
pub mod json_tokens;
pub mod text_editor;
pub mod edit_history;
pub mod naming;
pub mod anim_sim;
pub mod grab_pose;
pub mod scene_bridge;
pub mod inspector;
pub mod gizmo;
pub mod discover;
pub mod keys;
pub mod nav;
pub mod pointer;

verus! {
} // verus!
