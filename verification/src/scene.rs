//! Scenes: named patches with hooks, of which one is active at a time.
use crate::event::SceneNum;
use crate::nodes::Discard;
use crate::patch::Patch;
use vstd::prelude::*;
use vstd::string::StringExecFns;

verus! {

/// A scene: a patch for the events that come in while the scene is active,
/// a patch to run when it is entered, one to run when it is left, and its
/// sub-scenes. A sub-scene is a scene without sub-scenes of its own.
pub struct Scene {
    pub name: String,
    pub patch: Patch,
    pub init: Patch,
    pub exit: Patch,
    pub subscenes: Vec<Scene>,
}

/// The scene with number `scene_num` among `scenes`, if there is one.
pub open spec fn scene_at(scenes: Seq<Scene>, scene_num: Option<SceneNum>) -> Option<Scene> {
    match scene_num {
        Some(n) => if n < scenes.len() {
            Some(scenes[n as int])
        } else {
            None
        },
        None => None,
    }
}

/// The scene with number `scene_num` among `scenes`, if there is one.
pub fn get_scene(scenes: &Vec<Scene>, scene_num: Option<SceneNum>) -> (r: Option<&Scene>)
    ensures
        match r {
            Some(scene) => scene_at(scenes@, scene_num) == Some(*scene),
            None => scene_at(scenes@, scene_num) is None,
        },
{
    match scene_num {
        Some(n) => if (n as usize) < scenes.len() {
            Some(&scenes[n as usize])
        } else {
            None
        },
        None => None,
    }
}

/// Whether all of `scenes` are deterministic.
pub open spec fn scenes_deterministic(scenes: Seq<Scene>) -> bool
    decreases scenes, 0nat,
{
    if scenes.len() == 0 {
        true
    } else {
        scenes_deterministic(scenes.drop_last()) && scenes.last().deterministic()
    }
}

/// Each of a list of deterministic scenes is deterministic.
pub proof fn lemma_scene_deterministic(scenes: Seq<Scene>, i: int)
    requires
        scenes_deterministic(scenes),
        0 <= i < scenes.len(),
    ensures
        scenes[i].deterministic(),
    decreases scenes.len(),
{
    if i + 1 < scenes.len() {
        lemma_scene_deterministic(scenes.drop_last(), i);
    }
}

impl Scene {
    /// Whether what the scene does is a function of the events alone:
    /// whether none of its patches, nor of those of its sub-scenes, holds
    /// code of the user.
    pub open spec fn deterministic(&self) -> bool
        decreases self, 1nat,
    {
        &&& self.patch.is_deterministic()
        &&& self.init.is_deterministic()
        &&& self.exit.is_deterministic()
        &&& scenes_deterministic(self.subscenes@)
    }

    /// A scene without a name that drops every event and has no sub-scenes.
    pub fn default() -> (s: Self)
        ensures
            s.name@ == Seq::<char>::empty(),
            s.patch == Patch::Discard(Discard()),
            s.init == Patch::Discard(Discard()),
            s.exit == Patch::Discard(Discard()),
            s.subscenes@ == Seq::<Scene>::empty(),
    {
        Scene {
            name: String::new(),
            patch: Patch::Discard(Discard()),
            init: Patch::Discard(Discard()),
            exit: Patch::Discard(Discard()),
            subscenes: Vec::new(),
        }
    }

    /// A scene named "Single patch" around `patch`, without hooks and
    /// without sub-scenes.
    pub fn from(patch: Patch) -> (s: Self)
        ensures
            s.name@ == "Single patch"@,
            s.patch == patch,
            s.init == Patch::Discard(Discard()),
            s.exit == Patch::Discard(Discard()),
            s.subscenes@ == Seq::<Scene>::empty(),
    {
        Scene {
            name: String::from_str("Single patch"),
            patch,
            init: Patch::Discard(Discard()),
            exit: Patch::Discard(Discard()),
            subscenes: Vec::new(),
        }
    }

    /// The sub-scene with number `subscene_num`, if there is one.
    pub fn get_subscene(&self, subscene_num: SceneNum) -> (r: Option<&Scene>)
        ensures
            match r {
                Some(sub) => scene_at(self.subscenes@, Some(subscene_num)) == Some(*sub),
                None => scene_at(self.subscenes@, Some(subscene_num)) is None,
            },
    {
        get_scene(&self.subscenes, Some(subscene_num))
    }

    /// The sub-scene with number `subscene_num_opt`, if a number is given and
    /// there is such a sub-scene.
    pub fn get_subscene_opt(&self, subscene_num_opt: Option<SceneNum>) -> (r: Option<&Scene>)
        ensures
            match r {
                Some(sub) => scene_at(self.subscenes@, subscene_num_opt) == Some(*sub),
                None => scene_at(self.subscenes@, subscene_num_opt) is None,
            },
    {
        get_scene(&self.subscenes, subscene_num_opt)
    }
}

} // verus!
