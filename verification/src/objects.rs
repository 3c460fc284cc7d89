//! Scene-graph objects that add nothing but their kind: bones and groups.
//! An object's kind is its type name, as in the scene graph it belongs to.

use vstd::prelude::*;

verus! {

/// What a scene-graph object says about itself: its type name, its name,
/// and whether it is a group.
pub struct Object3D {
    pub object_type: String,
    pub name: String,
    pub is_group: bool,
}

/// A bone of a skeleton: an object whose type is `"Bone"`.
pub struct Bone;

/// An object that exists only to hold children: type `"Group"`, a group.
pub struct Group;

/// The type name of a bone.
pub open spec fn bone_type() -> Seq<char> {
    seq!['B', 'o', 'n', 'e']
}

/// The type name of a group.
pub open spec fn group_type() -> Seq<char> {
    seq!['G', 'r', 'o', 'u', 'p']
}

impl Bone {
    /// A new bone, unnamed.
    pub fn new() -> (bone: Object3D)
        ensures
            bone.object_type@ == bone_type(),
            bone.name@ == Seq::<char>::empty(),
            !bone.is_group,
    {
        proof {
            reveal_strlit("Bone");
            reveal_strlit("");
        }
        Object3D { object_type: String::from_str("Bone"), name: String::from_str(""), is_group: false }
    }

    /// A new bone with a name, which is how loaded skeletons build them.
    pub fn named(name: &str) -> (bone: Object3D)
        ensures
            bone.object_type@ == bone_type(),
            bone.name@ == name@,
            !bone.is_group,
    {
        let mut bone = Self::new();
        bone.name = String::from_str(name);
        bone
    }
}

impl Group {
    /// A new, empty group.
    pub fn new() -> (group: Object3D)
        ensures
            group.object_type@ == group_type(),
            group.name@ == Seq::<char>::empty(),
            group.is_group,
    {
        proof {
            reveal_strlit("Group");
            reveal_strlit("");
        }
        Object3D { object_type: String::from_str("Group"), name: String::from_str(""), is_group: true }
    }
}

/// Whether `object` is a bone: its type name is `"Bone"`.
pub fn is_bone(object: &Object3D) -> (bone: bool)
    ensures
        bone == (object.object_type@ == bone_type()),
{
    proof {
        reveal_strlit("Bone");
    }
    let name = String::from_str("Bone");
    assert(name@ =~= bone_type());
    object.object_type.eq(&name)
}

/// How a skinned mesh's bind matrix inverse is kept: attached to the mesh's
/// world matrix, or detached and tracking its own bind matrix.
#[derive(Clone, Copy, Debug, PartialEq, Eq, Structural)]
pub enum BindMode {
    /// The bind matrix inverse tracks the world matrix; the default.
    Attached,
    /// It tracks the bind matrix.
    Detached,
}

impl Default for BindMode {
    fn default() -> (mode: Self)
        ensures
            mode == BindMode::Attached,
    {
        BindMode::Attached
    }
}

/// A bone is a bone, with or without a name, and a group is not.
pub proof fn bones_are_bones_and_groups_are_not(bone: Object3D, group: Object3D)
    requires
        bone.object_type@ == bone_type(),
        group.object_type@ == group_type(),
    ensures
        bone.object_type@ == bone_type(),
        group.object_type@ != bone_type(),
{
    assert(group.object_type@[0] != bone_type()[0]);
}

} // verus!
