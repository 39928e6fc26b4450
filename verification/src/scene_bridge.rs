//! Fresh object ids and file names for objects added to the scene.
use vstd::prelude::*;

use crate::naming::{first_free, first_free_name, names};

verus! {

broadcast use vstd::string::group_string_axioms;

/// A fresh object id: `base` if no object has it, else the first free
/// `base_n` for n = 2, 3, ... `existing` holds the ids in the scene.
pub fn unique_id(existing: &Vec<String>, base: &str) -> (id: String)
    requires
        existing@.len() + 2 <= usize::MAX,
    ensures
        first_free(id@, names(existing@), base@, Seq::empty(), true, 1),
{
    let r = first_free_name(existing, base, "", true, 1);
    proof {
        reveal_strlit("");
        assert(""@ =~= Seq::<char>::empty());
    }
    r
}

/// A fresh file name for the voxelised copy of model `stem`:
/// `stem_voxel.glb` if no file has it, else the first free
/// `stem_voxel_n.glb` for n = 2, 3, ... `existing` holds the file names in
/// the models directory.
pub fn unique_voxel_filename(existing: &Vec<String>, stem: &str) -> (name: String)
    requires
        existing@.len() + 2 <= usize::MAX,
    ensures
        first_free(name@, names(existing@), stem@ + "_voxel"@, ".glb"@, true, 1),
{
    let mut prefix = stem.to_owned();
    prefix.append("_voxel");
    first_free_name(existing, prefix.as_str(), ".glb", true, 1)
}

/// Path, relative to the game directory, of a model file in `models/`.
pub fn model_rel_path(file_name: &str) -> (p: String)
    ensures
        p@ == "models/"@ + file_name@,
{
    let mut p = String::from_str("models/");
    p.append(file_name);
    p
}

} // verus!
