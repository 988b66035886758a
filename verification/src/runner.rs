//! The scene runtime: which scene is active, what a tick makes of an event,
//! and which hooks run when the active scene changes.
//!
//! The runtime is a state machine. Its state and its rules are stated over
//! [`RunnerView`]; the executable [`Runner`] follows them step by step. The
//! program around the library reads events from the transports, hands each
//! to [`Runner::tick`], and sends what comes back.
use crate::event::{
    CtrlEventImpl, Event, EventView, NoteOffEventImpl, NoteOnEventImpl, SceneNum,
    SceneSwitchValue,
};
use crate::backend::{Backend, BackendError};
use crate::engine::{delivered, dispatch, dispatch_all, dispatched};
use crate::event_stream::EventStream;
use crate::nodes::Discard;
use crate::patch::{
    all_deterministic, lemma_admits_deterministic, lemma_series_admits_deterministic,
    series_admits, series_eval, some_stream, Patch, RunMode,
};
use crate::scene::{get_scene, lemma_scene_deterministic, scene_at, scenes_deterministic, Scene};
use vstd::prelude::*;

verus! {

/// What a run works with: the patch that is always active, the scenes, the
/// control patch, and the patches that run before a scene is entered and
/// after one is left.
pub struct RunArguments {
    pub patch: Patch,
    pub scenes: Vec<Scene>,
    pub control: Patch,
    pub pre: Patch,
    pub post: Patch,
}

impl RunArguments {
    /// No scenes, and every patch drops all events.
    pub fn default() -> (args: Self)
        ensures
            args.patch == Patch::Discard(Discard()),
            args.scenes@ == Seq::<Scene>::empty(),
            args.control == Patch::Discard(Discard()),
            args.pre == Patch::Discard(Discard()),
            args.post == Patch::Discard(Discard()),
    {
        RunArguments {
            patch: Patch::Discard(Discard()),
            scenes: Vec::new(),
            control: Patch::Discard(Discard()),
            pre: Patch::Discard(Discard()),
            post: Patch::Discard(Discard()),
        }
    }
}

/// The mathematical value of a [`Runner`]: what it was set up with, and its
/// state.
pub struct RunnerView {
    pub patch: Patch,
    pub scenes: Seq<Scene>,
    pub control: Patch,
    pub pre: Patch,
    pub post: Patch,
    /// Added to the port of an event that comes in, taken off one that goes out.
    pub port_offset: u8,
    /// Added to the channel of an event that comes in, taken off one that goes out.
    pub channel_offset: u8,
    /// The number that the user gives to the first scene.
    pub scene_offset: SceneNum,
    pub initial_scene_num: SceneNum,
    pub current_scene_num: Option<SceneNum>,
    pub current_subscene_num: Option<SceneNum>,
    /// For each scene, the sub-scene that was active when the scene last was.
    pub stored_subscene_nums: Seq<Option<SceneNum>>,
    pub running: bool,
}

/// `x + d`, kept within what a `usize` holds.
pub open spec fn port_up(x: usize, d: u8) -> usize {
    if x + d > usize::MAX {
        usize::MAX
    } else {
        (x + d) as usize
    }
}

/// `x - d`, or 0 where that is negative.
pub open spec fn port_down(x: usize, d: u8) -> usize {
    if x < d {
        0usize
    } else {
        (x - d) as usize
    }
}

/// `x + d`, kept within what a `u8` holds.
pub open spec fn byte_up(x: u8, d: u8) -> u8 {
    if x + d > u8::MAX {
        u8::MAX
    } else {
        (x + d) as u8
    }
}

/// `x - d`, or 0 where that is negative.
pub open spec fn byte_down(x: u8, d: u8) -> u8 {
    if x < d {
        0u8
    } else {
        (x - d) as u8
    }
}

/// `e` as the patches see it: the offsets added to the port and channel
/// that the transport gave.
pub open spec fn to_user(e: EventView, port_offset: u8, channel_offset: u8) -> EventView {
    match e {
        EventView::NoteOn(x) => EventView::NoteOn(
            NoteOnEventImpl {
                port: port_up(x.port, port_offset),
                channel: byte_up(x.channel, channel_offset),
                ..x
            },
        ),
        EventView::NoteOff(x) => EventView::NoteOff(
            NoteOffEventImpl {
                port: port_up(x.port, port_offset),
                channel: byte_up(x.channel, channel_offset),
                ..x
            },
        ),
        EventView::Ctrl(x) => EventView::Ctrl(
            CtrlEventImpl {
                port: port_up(x.port, port_offset),
                channel: byte_up(x.channel, channel_offset),
                ..x
            },
        ),
        EventView::SysEx { port, data } => EventView::SysEx {
            port: port_up(port, port_offset),
            data,
        },
        EventView::Osc { port, addr, args } => EventView::Osc {
            port: port_up(port, port_offset),
            addr,
            args,
        },
        _ => e,
    }
}

/// `e` as a transport takes it: the offsets taken off port and channel.
pub open spec fn to_backend(e: EventView, port_offset: u8, channel_offset: u8) -> EventView {
    match e {
        EventView::NoteOn(x) => EventView::NoteOn(
            NoteOnEventImpl {
                port: port_down(x.port, port_offset),
                channel: byte_down(x.channel, channel_offset),
                ..x
            },
        ),
        EventView::NoteOff(x) => EventView::NoteOff(
            NoteOffEventImpl {
                port: port_down(x.port, port_offset),
                channel: byte_down(x.channel, channel_offset),
                ..x
            },
        ),
        EventView::Ctrl(x) => EventView::Ctrl(
            CtrlEventImpl {
                port: port_down(x.port, port_offset),
                channel: byte_down(x.channel, channel_offset),
                ..x
            },
        ),
        EventView::SysEx { port, data } => EventView::SysEx {
            port: port_down(port, port_offset),
            data,
        },
        EventView::Osc { port, addr, args } => EventView::Osc {
            port: port_down(port, port_offset),
            addr,
            args,
        },
        _ => e,
    }
}

/// Whether `e` is for the transports: whether it is no signal to the runner.
/// The placeholder is for the transports too, unless a filter took it out.
pub open spec fn is_message(e: EventView) -> bool {
    !e.is_control()
}

/// The messages among `raw`, in order, each as a transport takes it.
pub open spec fn emitted(raw: Seq<EventView>, port_offset: u8, channel_offset: u8) -> Seq<
    EventView,
>
    decreases raw.len(),
{
    if raw.len() == 0 {
        Seq::empty()
    } else {
        let before = emitted(raw.drop_last(), port_offset, channel_offset);
        if is_message(raw.last()) {
            before.push(to_backend(raw.last(), port_offset, channel_offset))
        } else {
            before
        }
    }
}

/// Whether `raw` holds a quit signal.
pub open spec fn has_quit(raw: Seq<EventView>) -> bool {
    raw.contains(EventView::Quit)
}

/// The target of the first scene switch in `raw`.
pub open spec fn first_scene_switch(raw: Seq<EventView>) -> Option<SceneSwitchValue>
    decreases raw.len(),
{
    if raw.len() == 0 {
        None
    } else {
        match raw.first() {
            EventView::SceneSwitch(v) => Some(v),
            _ => first_scene_switch(raw.drop_first()),
        }
    }
}

/// The target of the first sub-scene switch in `raw`.
pub open spec fn first_subscene_switch(raw: Seq<EventView>) -> Option<SceneSwitchValue>
    decreases raw.len(),
{
    if raw.len() == 0 {
        None
    } else {
        match raw.first() {
            EventView::SubSceneSwitch(v) => Some(v),
            _ => first_subscene_switch(raw.drop_first()),
        }
    }
}

/// What `patch` makes, in `mode`, of the stream that hooks start from: the
/// placeholder event alone.
pub open spec fn hook(patch: Patch, mode: RunMode) -> Seq<EventView> {
    patch.eval(mode, seq![EventView::Nothing])
}

/// What the hooks `hooks` make, each run in its mode on the placeholder
/// event alone: the results, one after the other.
pub open spec fn hooks_eval(hooks: Seq<(Patch, RunMode)>) -> Seq<EventView>
    decreases hooks.len(),
{
    if hooks.len() == 0 {
        Seq::empty()
    } else {
        hooks_eval(hooks.drop_last()) + hook(hooks.last().0, hooks.last().1)
    }
}

/// Whether the hooks `hooks` can make `out`: whether `out` is made of one
/// stream for each hook, in order, which that hook can make of the
/// placeholder event alone.
pub open spec fn hooks_admit(hooks: Seq<(Patch, RunMode)>, out: Seq<EventView>) -> bool
    decreases hooks.len(),
{
    if hooks.len() == 0 {
        out == Seq::<EventView>::empty()
    } else {
        exists|front: Seq<EventView>, back: Seq<EventView>|
            #![trigger some_stream(front), some_stream(back)]
            some_stream(front) && some_stream(back) && hooks_admit(hooks.drop_last(), front)
                && hooks.last().0.admits(hooks.last().1, seq![EventView::Nothing], back) && out
                == front + back
    }
}

/// Whether none of the hooks holds code of the user.
pub open spec fn hooks_deterministic(hooks: Seq<(Patch, RunMode)>) -> bool {
    forall|i: int| 0 <= i < hooks.len() ==> (#[trigger] hooks[i]).0.is_deterministic()
}

/// What two lists of hooks can make, one after the other, the two lists
/// put together can make.
pub proof fn lemma_hooks_admit_concat(
    first: Seq<(Patch, RunMode)>,
    a: Seq<EventView>,
    second: Seq<(Patch, RunMode)>,
    b: Seq<EventView>,
)
    requires
        hooks_admit(first, a),
        hooks_admit(second, b),
    ensures
        hooks_admit(first + second, a + b),
    decreases second.len(),
{
    if second.len() == 0 {
        assert(first + second =~= first);
        assert(a + b =~= a);
    } else {
        let (front, back) = choose|front: Seq<EventView>, back: Seq<EventView>|
            #![trigger some_stream(front), some_stream(back)]
            some_stream(front) && some_stream(back) && hooks_admit(second.drop_last(), front)
                && second.last().0.admits(second.last().1, seq![EventView::Nothing], back) && b
                == front + back;
        lemma_hooks_admit_concat(first, a, second.drop_last(), front);
        assert((first + second).drop_last() =~= first + second.drop_last());
        assert((first + second).last() == second.last());
        assert(a + b =~= (a + front) + back);
        assert(some_stream(a + front) && some_stream(back) && hooks_admit(
            (first + second).drop_last(),
            a + front,
        ) && (first + second).last().0.admits(
            (first + second).last().1,
            seq![EventView::Nothing],
            back,
        ) && a + b == (a + front) + back);
    }
}

/// What two lists of hooks make, one after the other, is what the two lists
/// put together make.
pub proof fn lemma_hooks_eval_concat(first: Seq<(Patch, RunMode)>, second: Seq<(Patch, RunMode)>)
    ensures
        hooks_eval(first + second) == hooks_eval(first) + hooks_eval(second),
    decreases second.len(),
{
    if second.len() == 0 {
        assert(first + second =~= first);
        assert(hooks_eval(first) + hooks_eval(second) =~= hooks_eval(first));
    } else {
        lemma_hooks_eval_concat(first, second.drop_last());
        assert((first + second).drop_last() =~= first + second.drop_last());
        assert((first + second).last() == second.last());
        assert(hooks_eval(first + second) =~= hooks_eval(first) + hooks_eval(second));
    }
}

/// What the hooks of a switch emit is what the list of those hooks makes.
pub proof fn lemma_switch_events(r: RunnerView, n: SceneNum, sub: Option<SceneNum>)
    ensures
        r.switch_subscene(n).1 == hooks_eval(r.switch_subscene_hooks(n)),
        r.switch_scene(n, sub).1 == hooks_eval(r.switch_scene_hooks(n, sub)),
{
    if r.subscene_switch_due(n) {
        lemma_hooks_eval_concat(r.subscene_exit_hooks(), r.with_subscene(n).subscene_init_hooks());
    }
    if r.scene_switch_due(n, sub) {
        let next = r.with_scene(n, sub);
        lemma_hooks_eval_concat(r.subscene_exit_hooks(), r.scene_exit_hooks());
        lemma_hooks_eval_concat(
            r.subscene_exit_hooks() + r.scene_exit_hooks(),
            next.scene_init_hooks(),
        );
        lemma_hooks_eval_concat(
            r.subscene_exit_hooks() + r.scene_exit_hooks() + next.scene_init_hooks(),
            next.subscene_init_hooks(),
        );
    } else if r.current_scene_num == Some(n) && sub is Some {
        let k = sub->0;
        if r.subscene_switch_due(k) {
            lemma_hooks_eval_concat(
                r.subscene_exit_hooks(),
                r.with_subscene(k).subscene_init_hooks(),
            );
        }
    }
}

/// The hooks that a list of references to patches and modes refers to.
pub open spec fn hook_list(hooks: Seq<(&Patch, RunMode)>) -> Seq<(Patch, RunMode)> {
    hooks.map_values(|h: (&Patch, RunMode)| (*h.0, h.1))
}

/// The patches that a list of references refers to.
pub open spec fn patch_list(patches: Seq<&Patch>) -> Seq<Patch> {
    patches.map_values(|p: &Patch| *p)
}

/// Nodes each of which is deterministic are all deterministic.
pub proof fn lemma_all_deterministic(fs: Seq<Patch>)
    requires
        forall|i: int| 0 <= i < fs.len() ==> (#[trigger] fs[i]).is_deterministic(),
    ensures
        all_deterministic(fs),
    decreases fs.len(),
{
    if fs.len() > 0 {
        assert forall|i: int| 0 <= i < fs.drop_last().len() implies (#[trigger] fs.drop_last()[i]).is_deterministic() by {
            assert(fs[i].is_deterministic());
        }
        lemma_all_deterministic(fs.drop_last());
        assert(fs[fs.len() - 1].is_deterministic());
    }
}

/// The scene number that a switch target stands for, where it stands for one.
///
/// A fixed target is a number as the user counts; a relative one starts from
/// `current`, and stands for nothing where there is no current number.
/// Either is kept within what a scene number holds.
pub open spec fn switch_target(
    target: SceneSwitchValue,
    current: Option<SceneNum>,
    scene_offset: SceneNum,
) -> Option<SceneNum> {
    match target {
        SceneSwitchValue::Fixed(n) => Some(byte_down(n, scene_offset)),
        SceneSwitchValue::Offset(d) => match current {
            Some(c) => Some(
                if c + d < 0 {
                    0u8
                } else if c + d > u8::MAX {
                    u8::MAX
                } else {
                    (c + d) as u8
                },
            ),
            None => None,
        },
    }
}

impl RunnerView {
    /// The scene that is active.
    pub open spec fn current_scene(self) -> Option<Scene> {
        scene_at(self.scenes, self.current_scene_num)
    }

    /// The sub-scene that is active.
    pub open spec fn current_subscene(self) -> Option<Scene> {
        match self.current_scene() {
            Some(scene) => scene_at(scene.subscenes@, self.current_subscene_num),
            None => None,
        }
    }

    /// What always holds of a runner.
    ///
    /// There is one stored sub-scene number for each scene; a scene has one
    /// exactly if it has sub-scenes, and the number is that of one of them.
    /// The current scene, if any, is one of the scenes; there is a current
    /// sub-scene exactly if the current scene has sub-scenes, and it is one
    /// of them.
    pub open spec fn wf(self) -> bool {
        &&& self.stored_subscene_nums.len() == self.scenes.len()
        &&& forall|i: int|
            0 <= i < self.scenes.len() ==> match #[trigger] self.stored_subscene_nums[i] {
                Some(k) => k < self.scenes[i].subscenes@.len(),
                None => self.scenes[i].subscenes@.len() == 0,
            }
        &&& match self.current_scene_num {
            Some(n) => n < self.scenes.len() && match self.current_subscene_num {
                Some(k) => k < self.scenes[n as int].subscenes@.len(),
                None => self.scenes[n as int].subscenes@.len() == 0,
            },
            None => self.current_subscene_num is None,
        }
    }

    /// Whether what the runner does is a function of the events alone:
    /// whether none of its patches and scenes holds code of the user.
    pub open spec fn deterministic(self) -> bool {
        &&& self.patch.is_deterministic()
        &&& self.control.is_deterministic()
        &&& self.pre.is_deterministic()
        &&& self.post.is_deterministic()
        &&& scenes_deterministic(self.scenes)
    }

    /// Whether `other` was set up as this runner was: with the same patches,
    /// scenes and offsets.
    pub open spec fn same_setup(self, other: RunnerView) -> bool {
        &&& self.patch == other.patch
        &&& self.scenes == other.scenes
        &&& self.control == other.control
        &&& self.pre == other.pre
        &&& self.post == other.post
        &&& self.port_offset == other.port_offset
        &&& self.channel_offset == other.channel_offset
        &&& self.scene_offset == other.scene_offset
        &&& self.initial_scene_num == other.initial_scene_num
    }

    /// The hooks that run when the current sub-scene is left: the exit hook
    /// of its patch, then its exit patch.
    pub open spec fn subscene_exit_hooks(self) -> Seq<(Patch, RunMode)> {
        match self.current_subscene() {
            Some(sub) => seq![(sub.patch, RunMode::Exit), (sub.exit, RunMode::Run)],
            None => Seq::empty(),
        }
    }

    /// The hooks that run when the current scene is left: the exit hook of
    /// its patch, then its exit patch, then the patch that follows every scene.
    pub open spec fn scene_exit_hooks(self) -> Seq<(Patch, RunMode)> {
        match self.current_scene() {
            Some(scene) => seq![
                (scene.patch, RunMode::Exit),
                (scene.exit, RunMode::Run),
                (self.post, RunMode::Run),
            ],
            None => seq![(self.post, RunMode::Run)],
        }
    }

    /// The hooks that run when the current scene is entered: the patch that
    /// comes before every scene, the init hook of the patch that is always
    /// active, then the scene's init patch and the init hook of its patch.
    pub open spec fn scene_init_hooks(self) -> Seq<(Patch, RunMode)> {
        match self.current_scene() {
            Some(scene) => seq![
                (self.pre, RunMode::Run),
                (self.patch, RunMode::Init),
                (scene.init, RunMode::Run),
                (scene.patch, RunMode::Init),
            ],
            None => seq![(self.pre, RunMode::Run), (self.patch, RunMode::Init)],
        }
    }

    /// The hooks that run when the current sub-scene is entered: its init
    /// patch, then the init hook of its patch.
    pub open spec fn subscene_init_hooks(self) -> Seq<(Patch, RunMode)> {
        match self.current_subscene() {
            Some(sub) => seq![(sub.init, RunMode::Run), (sub.patch, RunMode::Init)],
            None => Seq::empty(),
        }
    }

    /// What the hooks emit when the current sub-scene is left.
    pub open spec fn subscene_exit_events(self) -> Seq<EventView> {
        hooks_eval(self.subscene_exit_hooks())
    }

    /// What the hooks emit when the current scene is left.
    pub open spec fn scene_exit_events(self) -> Seq<EventView> {
        hooks_eval(self.scene_exit_hooks())
    }

    /// What the hooks emit when the current scene is entered.
    pub open spec fn scene_init_events(self) -> Seq<EventView> {
        hooks_eval(self.scene_init_hooks())
    }

    /// What the hooks emit when the current sub-scene is entered.
    pub open spec fn subscene_init_events(self) -> Seq<EventView> {
        hooks_eval(self.subscene_init_hooks())
    }

    /// Whether a switch to sub-scene `k` of the current scene takes place:
    /// there is such a sub-scene, and it is not the current one.
    pub open spec fn subscene_switch_due(self, k: SceneNum) -> bool {
        match self.current_scene() {
            Some(scene) => k < scene.subscenes@.len() && self.current_subscene_num != Some(k),
            None => false,
        }
    }

    /// The runner as a switch to sub-scene `k` of the current scene leaves it.
    pub open spec fn with_subscene(self, k: SceneNum) -> RunnerView {
        RunnerView {
            current_subscene_num: Some(k),
            stored_subscene_nums: self.stored_subscene_nums.update(
                self.current_scene_num->0 as int,
                Some(k),
            ),
            ..self
        }
    }

    /// The hooks that run on a switch to sub-scene `k` of the current scene,
    /// in order: those of leaving the current sub-scene, then those of
    /// entering `k`; none where no switch takes place.
    pub open spec fn switch_subscene_hooks(self, k: SceneNum) -> Seq<(Patch, RunMode)> {
        if self.subscene_switch_due(k) {
            self.subscene_exit_hooks() + self.with_subscene(k).subscene_init_hooks()
        } else {
            Seq::empty()
        }
    }

    /// The runner after a switch to sub-scene `k` of the current scene, and
    /// what the hooks emitted on the way, in order.
    ///
    /// Where the switch is due, the current sub-scene is left, `k` becomes
    /// the current sub-scene and the one stored for the current scene, and it
    /// is entered. Otherwise nothing changes.
    pub open spec fn switch_subscene(self, k: SceneNum) -> (RunnerView, Seq<EventView>) {
        if self.subscene_switch_due(k) {
            let next = self.with_subscene(k);
            (next, self.subscene_exit_events() + next.subscene_init_events())
        } else {
            (self, Seq::empty())
        }
    }

    /// Whether a switch to scene `n`, with sub-scene `sub` if one is given,
    /// changes the scene: there is such a scene, it is not the current one,
    /// and `sub`, if given, is one of its sub-scenes.
    pub open spec fn scene_switch_due(self, n: SceneNum, sub: Option<SceneNum>) -> bool {
        &&& n < self.scenes.len()
        &&& self.current_scene_num != Some(n)
        &&& match sub {
            Some(k) => k < self.scenes[n as int].subscenes@.len(),
            None => true,
        }
    }

    /// The runner as a switch to scene `n` leaves it, with sub-scene `sub` if
    /// one is given and else the one stored for `n`.
    pub open spec fn with_scene(self, n: SceneNum, sub: Option<SceneNum>) -> RunnerView {
        RunnerView {
            current_scene_num: Some(n),
            current_subscene_num: match sub {
                Some(k) => Some(k),
                None => self.stored_subscene_nums[n as int],
            },
            stored_subscene_nums: match sub {
                Some(k) => self.stored_subscene_nums.update(n as int, Some(k)),
                None => self.stored_subscene_nums,
            },
            ..self
        }
    }

    /// The hooks that run on a switch to scene `n`, in order: those of
    /// leaving the current sub-scene and the current scene, then those of
    /// entering `n` and its sub-scene.
    pub open spec fn switch_scene_hooks(self, n: SceneNum, sub: Option<SceneNum>) -> Seq<
        (Patch, RunMode),
    > {
        if self.scene_switch_due(n, sub) {
            self.subscene_exit_hooks() + self.scene_exit_hooks() + self.with_scene(
                n,
                sub,
            ).scene_init_hooks() + self.with_scene(n, sub).subscene_init_hooks()
        } else if self.current_scene_num == Some(n) && sub is Some {
            self.switch_subscene_hooks(sub->0)
        } else {
            Seq::empty()
        }
    }

    /// The runner after a switch to scene `n`, and what the hooks emitted on
    /// the way, in order.
    ///
    /// Where the switch is due, the current sub-scene and then the current
    /// scene are left, `n` becomes the current scene, its sub-scene becomes
    /// `sub` if given and else the one stored for `n`, and the scene and then
    /// the sub-scene are entered. A switch to the current scene with a
    /// sub-scene given is a switch of sub-scene. Otherwise nothing changes.
    pub open spec fn switch_scene(self, n: SceneNum, sub: Option<SceneNum>) -> (
        RunnerView,
        Seq<EventView>,
    ) {
        if self.scene_switch_due(n, sub) {
            let next = self.with_scene(n, sub);
            (
                next,
                self.subscene_exit_events() + self.scene_exit_events() + next.scene_init_events()
                    + next.subscene_init_events(),
            )
        } else if self.current_scene_num == Some(n) && sub is Some {
            self.switch_subscene(sub->0)
        } else {
            (self, Seq::empty())
        }
    }

    /// The runner with `running` cleared if `raw` holds a quit signal.
    pub open spec fn heed_quit(self, raw: Seq<EventView>) -> RunnerView {
        RunnerView { running: self.running && !has_quit(raw), ..self }
    }

    /// The runner as it starts: running, with the initial scene, if there
    /// is such a scene, as the current one, and the sub-scene stored for it.
    pub open spec fn entered(self) -> RunnerView {
        if self.initial_scene_num < self.scenes.len() {
            RunnerView {
                current_scene_num: Some(self.initial_scene_num),
                current_subscene_num: self.stored_subscene_nums[self.initial_scene_num as int],
                running: true,
                ..self
            }
        } else {
            RunnerView { running: true, ..self }
        }
    }

    /// The hooks that run at the start: those of entering the initial scene
    /// and then its sub-scene.
    pub open spec fn start_hooks(self) -> Seq<(Patch, RunMode)> {
        self.entered().scene_init_hooks() + self.entered().subscene_init_hooks()
    }

    /// The runner after its start, and what the hooks emitted: the runner
    /// as it starts, its scene and then its sub-scene entered.
    pub open spec fn start(self) -> (RunnerView, Seq<EventView>) {
        let raw = self.entered().scene_init_events() + self.entered().subscene_init_events();
        (self.entered().heed_quit(raw), raw)
    }

    /// The runner after it has heeded the signals of a tick, where `raw` is
    /// what the patches made and `hooks` what the hooks made after them: the
    /// first scene switch in `raw`, then the first sub-scene switch in
    /// `raw`, then a quit signal in either.
    pub open spec fn heeded(self, raw: Seq<EventView>, hooks: Seq<EventView>) -> RunnerView {
        self.heed_scene_switch(raw).0.heed_subscene_switch(raw).0.heed_quit(raw + hooks)
    }

    /// The patches that work on an event of a transport, in order: the
    /// control patch, the patch that is always active, the current scene's
    /// patch and the current sub-scene's patch.
    pub open spec fn tick_patches(self) -> Seq<Patch> {
        match self.current_scene() {
            Some(scene) => match self.current_subscene() {
                Some(sub) => seq![self.control, self.patch, scene.patch, sub.patch],
                None => seq![self.control, self.patch, scene.patch],
            },
            None => seq![self.control, self.patch],
        }
    }

    /// What the patches make of the event `e` of a transport: the control
    /// patch works on `e` alone, with the offsets added, and each patch
    /// after it works on what the one before it left.
    pub open spec fn patched(self, e: EventView) -> Seq<EventView> {
        series_eval(
            self.tick_patches(),
            RunMode::Run,
            seq![to_user(e, self.port_offset, self.channel_offset)],
        )
    }

    /// The hooks that run when the scene switch that `raw` asks for, if
    /// any, is heeded.
    pub open spec fn heed_scene_switch_hooks(self, raw: Seq<EventView>) -> Seq<(Patch, RunMode)> {
        match first_scene_switch(raw) {
            Some(target) => match switch_target(target, self.current_scene_num, self.scene_offset) {
                Some(n) => self.switch_scene_hooks(n, None),
                None => Seq::empty(),
            },
            None => Seq::empty(),
        }
    }

    /// The hooks that run when the sub-scene switch that `raw` asks for, if
    /// any, is heeded.
    pub open spec fn heed_subscene_switch_hooks(self, raw: Seq<EventView>) -> Seq<
        (Patch, RunMode),
    > {
        match first_subscene_switch(raw) {
            Some(target) => match switch_target(
                target,
                self.current_subscene_num,
                self.scene_offset,
            ) {
                Some(k) => self.switch_subscene_hooks(k),
                None => Seq::empty(),
            },
            None => Seq::empty(),
        }
    }

    /// The hooks that run in a tick whose patches made `raw`: those of the
    /// scene switch, then those of the sub-scene switch.
    pub open spec fn tick_hooks(self, raw: Seq<EventView>) -> Seq<(Patch, RunMode)> {
        self.heed_scene_switch_hooks(raw) + self.heed_scene_switch(
            raw,
        ).0.heed_subscene_switch_hooks(raw)
    }

    /// The runner after it has heeded the signal `e`, not counting what the
    /// hooks of a switch may add: a quit signal stops the run, a scene
    /// switch or sub-scene switch is made, any other event changes nothing.
    pub open spec fn heed_signal(self, e: EventView) -> RunnerView {
        match e {
            EventView::Quit => RunnerView { running: false, ..self },
            EventView::SceneSwitch(target) => match switch_target(
                target,
                self.current_scene_num,
                self.scene_offset,
            ) {
                Some(n) => self.switch_scene(n, None).0,
                None => self,
            },
            EventView::SubSceneSwitch(target) => match switch_target(
                target,
                self.current_subscene_num,
                self.scene_offset,
            ) {
                Some(k) => self.switch_subscene(k).0,
                None => self,
            },
            _ => self,
        }
    }

    /// The hooks that run when the signal `e` is heeded.
    pub open spec fn signal_hooks(self, e: EventView) -> Seq<(Patch, RunMode)> {
        match e {
            EventView::SceneSwitch(target) => match switch_target(
                target,
                self.current_scene_num,
                self.scene_offset,
            ) {
                Some(n) => self.switch_scene_hooks(n, None),
                None => Seq::empty(),
            },
            EventView::SubSceneSwitch(target) => match switch_target(
                target,
                self.current_subscene_num,
                self.scene_offset,
            ) {
                Some(k) => self.switch_subscene_hooks(k),
                None => Seq::empty(),
            },
            _ => Seq::empty(),
        }
    }

    /// The runner after the scene switch that `raw` asks for, if any, and
    /// what the hooks emitted.
    pub open spec fn heed_scene_switch(self, raw: Seq<EventView>) -> (RunnerView, Seq<EventView>) {
        match first_scene_switch(raw) {
            Some(target) => match switch_target(target, self.current_scene_num, self.scene_offset) {
                Some(n) => self.switch_scene(n, None),
                None => (self, Seq::empty()),
            },
            None => (self, Seq::empty()),
        }
    }

    /// The runner after the sub-scene switch that `raw` asks for, if any,
    /// and what the hooks emitted.
    pub open spec fn heed_subscene_switch(self, raw: Seq<EventView>) -> (
        RunnerView,
        Seq<EventView>,
    ) {
        match first_subscene_switch(raw) {
            Some(target) => match switch_target(
                target,
                self.current_subscene_num,
                self.scene_offset,
            ) {
                Some(k) => self.switch_subscene(k),
                None => (self, Seq::empty()),
            },
            None => (self, Seq::empty()),
        }
    }

    /// Whether the start can leave the runner as `next` and make `out` for
    /// the transports: whether the hooks of the start can make a stream
    /// whose messages are `out`, and `next` is the runner as it starts, the
    /// quit signals in that stream heeded.
    pub open spec fn started(self, next: RunnerView, out: Seq<EventView>) -> bool {
        exists|hooks: Seq<EventView>|
            {
                &&& #[trigger] hooks_admit(self.start_hooks(), hooks)
                &&& next == self.entered().heed_quit(hooks)
                &&& out == emitted(hooks, self.port_offset, self.channel_offset)
            }
    }

    /// Whether one tick on `e` can leave the runner as `next` and make
    /// `out` for the transports: whether the patches, one after the other,
    /// can make a stream `raw` of `e`, and the hooks of the switches in
    /// `raw` a stream `hooks`, such that `next` is the runner with the
    /// signals heeded and `out` the messages of `raw` and then `hooks`.
    pub open spec fn ticked(self, e: EventView, next: RunnerView, out: Seq<EventView>) -> bool {
        exists|raw: Seq<EventView>, hooks: Seq<EventView>|
            {
                &&& next == #[trigger] self.heeded(raw, hooks)
                &&& series_admits(
                    self.tick_patches(),
                    RunMode::Run,
                    seq![to_user(e, self.port_offset, self.channel_offset)],
                    raw,
                )
                &&& hooks_admit(self.tick_hooks(raw), hooks)
                &&& out == emitted(raw + hooks, self.port_offset, self.channel_offset)
            }
    }

    /// Whether one tick on each of `events` in turn can leave the runner as
    /// `next` and make `out` for the transports.
    pub open spec fn worked_off(
        self,
        events: Seq<EventView>,
        next: RunnerView,
        out: Seq<EventView>,
    ) -> bool
        decreases events.len(),
    {
        if events.len() == 0 {
            next == self && out == Seq::<EventView>::empty()
        } else {
            exists|mid: RunnerView, front: Seq<EventView>, back: Seq<EventView>|
                #![trigger mid.ticked(events.last(), next, back), some_stream(front)]
                some_stream(front) && self.worked_off(events.drop_last(), mid, front)
                    && mid.ticked(events.last(), next, back) && out == front + back
        }
    }

    /// The runner after one tick on each of `events` in turn, and the
    /// messages for the transports that the ticks made, in order.
    pub open spec fn ticks(self, events: Seq<EventView>) -> (RunnerView, Seq<EventView>)
        decreases events.len(),
    {
        if events.len() == 0 {
            (self, Seq::empty())
        } else {
            let (before, sent) = self.ticks(events.drop_last());
            let (after, raw) = before.tick(events.last());
            (after, sent + emitted(raw, self.port_offset, self.channel_offset))
        }
    }

    /// The runner after one tick on the event `e` of a transport, and all
    /// that the patches and hooks made, in order.
    ///
    /// First the patches work on `e`. Then the first scene switch among
    /// their results is heeded, then the first sub-scene switch. A quit
    /// signal anywhere among the results stops the run.
    pub open spec fn tick(self, e: EventView) -> (RunnerView, Seq<EventView>) {
        let raw = self.patched(e);
        let (after_scene, scene_hooks) = self.heed_scene_switch(raw);
        let (after_subscene, subscene_hooks) = after_scene.heed_subscene_switch(raw);
        let all = raw + scene_hooks + subscene_hooks;
        (after_subscene.heed_quit(all), all)
    }
}

/// For each of `scenes`, the sub-scene to begin with: the first, where the
/// scene has sub-scenes.
pub open spec fn initial_subscene_nums(scenes: Seq<Scene>) -> Seq<Option<SceneNum>> {
    Seq::new(
        scenes.len(),
        |i: int|
            if scenes[i].subscenes@.len() == 0 {
                None
            } else {
                Some(0u8)
            },
    )
}

/// What is shown of a scene: its number as the user counts, its name, and
/// the same of its current sub-scene.
#[derive(Debug)]
pub struct SceneLabel {
    pub scene: SceneNum,
    pub name: String,
    pub subscene: Option<(SceneNum, String)>,
}

/// The scene runtime.
pub struct Runner {
    port_offset: u8,
    channel_offset: u8,
    scene_offset: SceneNum,
    patch: Patch,
    scenes: Vec<Scene>,
    control: Patch,
    pre: Patch,
    post: Patch,
    initial_scene_num: SceneNum,
    current_scene_num: Option<SceneNum>,
    current_subscene_num: Option<SceneNum>,
    stored_subscene_nums: Vec<Option<SceneNum>>,
    running: bool,
}

impl View for Runner {
    type V = RunnerView;

    closed spec fn view(&self) -> RunnerView {
        RunnerView {
            patch: self.patch,
            scenes: self.scenes@,
            control: self.control,
            pre: self.pre,
            post: self.post,
            port_offset: self.port_offset,
            channel_offset: self.channel_offset,
            scene_offset: self.scene_offset,
            initial_scene_num: self.initial_scene_num,
            current_scene_num: self.current_scene_num,
            current_subscene_num: self.current_subscene_num,
            stored_subscene_nums: self.stored_subscene_nums@,
            running: self.running,
        }
    }
}

/// Runs the hooks `hooks` in order, each on the placeholder event alone, and
/// adds what they make to `raw`. Returns what was added.
fn run_hooks(hooks: &Vec<(&Patch, RunMode)>, raw: &mut EventStream) -> (out: Ghost<Seq<EventView>>)
    ensures
        hooks_admit(hook_list(hooks@), out@),
        final(raw)@ == old(raw)@ + out@,
        hooks_deterministic(hook_list(hooks@)) ==> out@ == hooks_eval(hook_list(hooks@)),
{
    let ghost list = hook_list(hooks@);
    let ghost mut acc = Seq::<EventView>::empty();
    let mut i: usize = 0;
    proof {
        assert(list.take(0) =~= Seq::<(Patch, RunMode)>::empty());
        assert(raw@ =~= old(raw)@ + acc);
    }
    while i < hooks.len()
        invariant
            i <= hooks.len(),
            list == hook_list(hooks@),
            hooks_admit(list.take(i as int), acc),
            raw@ == old(raw)@ + acc,
            hooks_deterministic(list) ==> acc == hooks_eval(list.take(i as int)),
        decreases hooks.len() - i,
    {
        let mut evs = EventStream::none();
        hooks[i].0.exec(hooks[i].1, &mut evs);
        proof {
            let front = acc;
            let back = evs@;
            assert(list.take(i + 1).drop_last() =~= list.take(i as int));
            assert(list.take(i + 1).last() == list[i as int]);
            assert(list[i as int] == (*hooks@[i as int].0, hooks@[i as int].1));
            if hooks_deterministic(list) {
                assert(list[i as int].0.is_deterministic());
                lemma_admits_deterministic(
                    list[i as int].0,
                    list[i as int].1,
                    seq![EventView::Nothing],
                    back,
                );
            }
            acc = front + back;
            assert(some_stream(front) && some_stream(back) && hooks_admit(
                list.take(i + 1).drop_last(),
                front,
            ) && list.take(i + 1).last().0.admits(
                list.take(i + 1).last().1,
                seq![EventView::Nothing],
                back,
            ) && acc == front + back);
        }
        raw.extend(evs);
        assert(raw@ =~= old(raw)@ + acc);
        i += 1;
    }
    assert(list.take(i as int) =~= list);
    Ghost(acc)
}

/// Runs the patches `patches` in order, each on what the one before it left.
fn run_series(patches: &Vec<&Patch>, evs: &mut EventStream)
    ensures
        series_admits(patch_list(patches@), RunMode::Run, old(evs)@, final(evs)@),
        all_deterministic(patch_list(patches@)) ==> final(evs)@ == series_eval(
            patch_list(patches@),
            RunMode::Run,
            old(evs)@,
        ),
{
    let ghost list = patch_list(patches@);
    let mut i: usize = 0;
    assert(list.take(0) =~= Seq::<Patch>::empty());
    while i < patches.len()
        invariant
            i <= patches.len(),
            list == patch_list(patches@),
            series_admits(list.take(i as int), RunMode::Run, old(evs)@, evs@),
        decreases patches.len() - i,
    {
        let ghost mid = evs@;
        proof {
            assert(list.take(i + 1).drop_last() =~= list.take(i as int));
            assert(list.take(i + 1).last() == *patches@[i as int]);
        }
        patches[i].exec(RunMode::Run, evs);
        assert(some_stream(mid) && series_admits(
            list.take(i + 1).drop_last(),
            RunMode::Run,
            old(evs)@,
            mid,
        ) && list.take(i + 1).last().admits(RunMode::Run, mid, evs@));
        i += 1;
    }
    proof {
        assert(list.take(i as int) =~= list);
        if all_deterministic(list) {
            lemma_series_admits_deterministic(list, RunMode::Run, old(evs)@, evs@);
        }
    }
}

/// `ev` as the patches see it.
pub fn event_to_user(ev: &mut Event, port_offset: u8, channel_offset: u8)
    ensures
        final(ev)@ == to_user(old(ev)@, port_offset, channel_offset),
{
    match ev {
        Event::NoteOn(x) => {
            x.port = x.port.saturating_add(port_offset as usize);
            x.channel = x.channel.saturating_add(channel_offset);
        },
        Event::NoteOff(x) => {
            x.port = x.port.saturating_add(port_offset as usize);
            x.channel = x.channel.saturating_add(channel_offset);
        },
        Event::Ctrl(x) => {
            x.port = x.port.saturating_add(port_offset as usize);
            x.channel = x.channel.saturating_add(channel_offset);
        },
        Event::SysEx(x) => {
            x.port = x.port.saturating_add(port_offset as usize);
        },
        Event::Osc(x) => {
            x.port = x.port.saturating_add(port_offset as usize);
        },
        _ => {},
    }
}

/// `ev` as a transport takes it.
pub fn event_to_backend(ev: &mut Event, port_offset: u8, channel_offset: u8)
    ensures
        final(ev)@ == to_backend(old(ev)@, port_offset, channel_offset),
{
    match ev {
        Event::NoteOn(x) => {
            x.port = x.port.saturating_sub(port_offset as usize);
            x.channel = x.channel.saturating_sub(channel_offset);
        },
        Event::NoteOff(x) => {
            x.port = x.port.saturating_sub(port_offset as usize);
            x.channel = x.channel.saturating_sub(channel_offset);
        },
        Event::Ctrl(x) => {
            x.port = x.port.saturating_sub(port_offset as usize);
            x.channel = x.channel.saturating_sub(channel_offset);
        },
        Event::SysEx(x) => {
            x.port = x.port.saturating_sub(port_offset as usize);
        },
        Event::Osc(x) => {
            x.port = x.port.saturating_sub(port_offset as usize);
        },
        _ => {},
    }
}

/// Whether `raw` holds a quit signal.
pub fn find_quit(raw: &EventStream) -> (found: bool)
    ensures
        found == has_quit(raw@),
{
    let mut i: usize = 0;
    while i < raw.len()
        invariant
            i <= raw@.len(),
            forall|j: int| 0 <= j < i ==> raw@[j] != EventView::Quit,
        decreases raw@.len() - i,
    {
        match raw.get(i) {
            Event::Quit(_) => {
                return true;
            },
            _ => {},
        }
        i += 1;
    }
    false
}

/// The target of the first scene switch in `raw`.
pub fn find_scene_switch(raw: &EventStream) -> (r: Option<SceneSwitchValue>)
    ensures
        r == first_scene_switch(raw@),
{
    let mut i: usize = 0;
    assert(raw@.skip(0) =~= raw@);
    while i < raw.len()
        invariant
            i <= raw@.len(),
            first_scene_switch(raw@) == first_scene_switch(raw@.skip(i as int)),
        decreases raw@.len() - i,
    {
        proof {
            assert(raw@.skip(i as int).drop_first() =~= raw@.skip(i + 1));
        }
        match raw.get(i) {
            Event::SceneSwitch(e) => {
                return Some(e.scene);
            },
            _ => {},
        }
        i += 1;
    }
    assert(raw@.skip(i as int).len() == 0);
    None
}

/// The target of the first sub-scene switch in `raw`.
pub fn find_subscene_switch(raw: &EventStream) -> (r: Option<SceneSwitchValue>)
    ensures
        r == first_subscene_switch(raw@),
{
    let mut i: usize = 0;
    assert(raw@.skip(0) =~= raw@);
    while i < raw.len()
        invariant
            i <= raw@.len(),
            first_subscene_switch(raw@) == first_subscene_switch(raw@.skip(i as int)),
        decreases raw@.len() - i,
    {
        proof {
            assert(raw@.skip(i as int).drop_first() =~= raw@.skip(i + 1));
        }
        match raw.get(i) {
            Event::SubSceneSwitch(e) => {
                return Some(e.subscene);
            },
            _ => {},
        }
        i += 1;
    }
    assert(raw@.skip(i as int).len() == 0);
    None
}

/// The scene number that a switch target stands for, where it stands for one.
pub fn resolve_target(
    target: SceneSwitchValue,
    current: Option<SceneNum>,
    scene_offset: SceneNum,
) -> (r: Option<SceneNum>)
    ensures
        r == switch_target(target, current, scene_offset),
{
    match target {
        SceneSwitchValue::Fixed(n) => Some(n.saturating_sub(scene_offset)),
        SceneSwitchValue::Offset(d) => match current {
            Some(c) => {
                let sum: i32 = c as i32 + d as i32;
                if sum < 0 {
                    Some(0)
                } else if sum > 255 {
                    Some(255)
                } else {
                    Some(sum as u8)
                }
            },
            None => None,
        },
    }
}

/// The messages among `raw`, in order, each as a transport takes it.
pub fn emit(raw: &EventStream, port_offset: u8, channel_offset: u8) -> (out: EventStream)
    ensures
        out@ == emitted(raw@, port_offset, channel_offset),
{
    let mut out = EventStream::empty();
    let mut i: usize = 0;
    while i < raw.len()
        invariant
            i <= raw@.len(),
            out@ == emitted(raw@.take(i as int), port_offset, channel_offset),
        decreases raw@.len() - i,
    {
        proof {
            assert(raw@.take(i + 1).drop_last() =~= raw@.take(i as int));
        }
        let ev = raw.get(i);
        if !ev.is_control() {
            let mut sent = ev.clone();
            event_to_backend(&mut sent, port_offset, channel_offset);
            out.push(sent);
        }
        i += 1;
    }
    assert(raw@.take(i as int) =~= raw@);
    out
}

impl Runner {
    /// A runner that has not started: no scene is current, and for each
    /// scene with sub-scenes the first of them is stored.
    pub fn new(
        args: RunArguments,
        port_offset: u8,
        channel_offset: u8,
        scene_offset: SceneNum,
        initial_scene_num: SceneNum,
    ) -> (r: Self)
        ensures
            r@.wf(),
            r@ == (RunnerView {
                patch: args.patch,
                scenes: args.scenes@,
                control: args.control,
                pre: args.pre,
                post: args.post,
                port_offset,
                channel_offset,
                scene_offset,
                initial_scene_num,
                current_scene_num: None,
                current_subscene_num: None,
                stored_subscene_nums: initial_subscene_nums(args.scenes@),
                running: false,
            }),
    {
        let mut stored: Vec<Option<SceneNum>> = Vec::new();
        let mut i: usize = 0;
        while i < args.scenes.len()
            invariant
                i <= args.scenes.len(),
                stored@ == initial_subscene_nums(args.scenes@).take(i as int),
            decreases args.scenes.len() - i,
        {
            if args.scenes[i].subscenes.len() == 0 {
                stored.push(None);
            } else {
                stored.push(Some(0));
            }
            assert(stored@ =~= initial_subscene_nums(args.scenes@).take(i + 1));
            i += 1;
        }
        assert(stored@ =~= initial_subscene_nums(args.scenes@));
        Runner {
            port_offset,
            channel_offset,
            scene_offset,
            patch: args.patch,
            scenes: args.scenes,
            control: args.control,
            pre: args.pre,
            post: args.post,
            initial_scene_num,
            current_scene_num: None,
            current_subscene_num: None,
            stored_subscene_nums: stored,
            running: false,
        }
    }

    /// Whether the run goes on.
    pub fn is_running(&self) -> (b: bool)
        ensures
            b == self@.running,
    {
        self.running
    }

    /// The number of the current scene.
    pub fn current_scene_num(&self) -> (n: Option<SceneNum>)
        ensures
            n == self@.current_scene_num,
    {
        self.current_scene_num
    }

    /// The number of the current sub-scene.
    pub fn current_subscene_num(&self) -> (n: Option<SceneNum>)
        ensures
            n == self@.current_subscene_num,
    {
        self.current_subscene_num
    }

    /// The sub-scene stored for the current scene.
    pub fn get_stored_subscene_num(&self) -> (n: Option<SceneNum>)
        ensures
            n == match self@.current_scene_num {
                Some(c) => if c < self@.stored_subscene_nums.len() {
                    self@.stored_subscene_nums[c as int]
                } else {
                    None
                },
                None => None,
            },
    {
        match self.current_scene_num {
            Some(c) => if (c as usize) < self.stored_subscene_nums.len() {
                self.stored_subscene_nums[c as usize]
            } else {
                None
            },
            None => None,
        }
    }

    /// What is to be shown of the current scene: nothing where no scene is
    /// current; else the scene's number as the user counts and its name,
    /// and the same of the current sub-scene if there is one.
    pub fn current_scene_label(&self) -> (r: Option<SceneLabel>)
        ensures
            match r {
                Some(label) => self@.current_scene() matches Some(scene) && label.scene
                    == byte_up(self@.current_scene_num->0, self@.scene_offset) && label.name@
                    == scene.name@ && match label.subscene {
                    Some((number, name)) => self@.current_subscene() matches Some(sub) && number
                        == byte_up(self@.current_subscene_num->0, self@.scene_offset) && name@
                        == sub.name@,
                    None => self@.current_subscene() is None,
                },
                None => self@.current_scene() is None,
            },
    {
        match get_scene(&self.scenes, self.current_scene_num) {
            Some(scene) => {
                let number = self.current_scene_num.unwrap().saturating_add(self.scene_offset);
                let subscene = match scene.get_subscene_opt(self.current_subscene_num) {
                    Some(sub) => Some(
                        (
                            self.current_subscene_num.unwrap().saturating_add(self.scene_offset),
                            sub.name.clone(),
                        ),
                    ),
                    None => None,
                };
                Some(SceneLabel { scene: number, name: scene.name.clone(), subscene })
            },
            None => None,
        }
    }

    /// Brings an event of a transport into the form that the patches see.
    pub fn backend_event_to_user(&self, ev: &mut Event)
        ensures
            final(ev)@ == to_user(old(ev)@, self@.port_offset, self@.channel_offset),
    {
        event_to_user(ev, self.port_offset, self.channel_offset);
    }

    /// Brings an event of a patch into the form that a transport takes.
    pub fn user_event_to_backend(&self, ev: &mut Event)
        ensures
            final(ev)@ == to_backend(old(ev)@, self@.port_offset, self@.channel_offset),
    {
        event_to_backend(ev, self.port_offset, self.channel_offset);
    }

    /// Heeds or sends one event that a patch made.
    ///
    /// A quit signal stops the run. A scene switch or sub-scene switch is
    /// made; what its hooks make for the transports is sent, and a quit
    /// signal among it stops the run. Of these the answer is 0. Any other
    /// event is handed, with the offsets taken off, to the transports in
    /// turn until one has sent it.
    pub fn output_event(&mut self, ev: &Event, backends: &mut Vec<Box<dyn Backend>>) -> (r: Result<
        u32,
        BackendError,
    >)
        requires
            old(self)@.wf(),
        ensures
            final(self)@.wf(),
            old(self)@.same_setup(final(self)@),
            final(backends)@.len() == old(backends)@.len(),
            ev@.is_control() ==> exists|hooks: Seq<EventView>|
                {
                    &&& #[trigger] hooks_admit(old(self)@.signal_hooks(ev@), hooks)
                    &&& final(self)@ == old(self)@.heed_signal(ev@).heed_quit(hooks)
                    &&& delivered(
                        old(backends)@,
                        emitted(hooks, old(self)@.port_offset, old(self)@.channel_offset),
                        final(backends)@,
                        match r {
                            Ok(_) => None,
                            Err(e) => Some(e),
                        },
                    )
                },
            ev@.is_control() ==> (r matches Ok(n) ==> n == 0),
            ev@.is_control() && old(self)@.deterministic() ==> final(self)@
                == old(self)@.heed_signal(ev@).heed_quit(
                hooks_eval(old(self)@.signal_hooks(ev@)),
            ),
            ev@ is Quit ==> final(backends)@ == old(backends)@ && (r matches Ok(n) && n == 0),
            old(backends)@.len() == 0 ==> (r matches Ok(n) && n == 0),
            !ev@.is_control() ==> final(self)@ == old(self)@ && dispatched(
                old(backends)@,
                to_backend(ev@, old(self)@.port_offset, old(self)@.channel_offset),
                final(backends)@,
                r,
            ),
    {
        match ev {
            Event::Quit(_) => {
                self.running = false;
                proof {
                    let hooks = Seq::<EventView>::empty();
                    assert(hooks_admit(old(self)@.signal_hooks(ev@), hooks));
                    assert(emitted(hooks, self.port_offset, self.channel_offset)
                        =~= Seq::<EventView>::empty());
                    assert(hooks_eval(old(self)@.signal_hooks(ev@)) =~= hooks);
                    assert(self@ == old(self)@.heed_signal(ev@).heed_quit(hooks));
                }
                Ok(0)
            },
            Event::SceneSwitch(e) => {
                let mut raw = EventStream::empty();
                let ghost mut hooks = Seq::<EventView>::empty();
                if let Some(n) = resolve_target(e.scene, self.current_scene_num, self.scene_offset) {
                    let h = self.switch_scene_core(n, None, &mut raw);
                    proof {
                        hooks = h@;
                    }
                }
                assert(raw@ =~= hooks);
                if find_quit(&raw) {
                    self.running = false;
                }
                let out = emit(&raw, self.port_offset, self.channel_offset);
                let sent = dispatch_all(backends, &out);
                proof {
                    match switch_target(
                        e.scene,
                        old(self)@.current_scene_num,
                        old(self)@.scene_offset,
                    ) {
                        Some(n) => {
                            lemma_switch_events(old(self)@, n, None);
                        },
                        None => {},
                    }
                    assert(hooks_admit(old(self)@.signal_hooks(ev@), hooks));
                    assert(self@ == old(self)@.heed_signal(ev@).heed_quit(hooks));
                }
                match sent {
                    Ok(()) => Ok(0),
                    Err(e) => Err(e),
                }
            },
            Event::SubSceneSwitch(e) => {
                let mut raw = EventStream::empty();
                let ghost mut hooks = Seq::<EventView>::empty();
                if let Some(k) = resolve_target(
                    e.subscene,
                    self.current_subscene_num,
                    self.scene_offset,
                ) {
                    let h = self.switch_subscene_core(k, &mut raw);
                    proof {
                        hooks = h@;
                    }
                }
                assert(raw@ =~= hooks);
                if find_quit(&raw) {
                    self.running = false;
                }
                let out = emit(&raw, self.port_offset, self.channel_offset);
                let sent = dispatch_all(backends, &out);
                proof {
                    match switch_target(
                        e.subscene,
                        old(self)@.current_subscene_num,
                        old(self)@.scene_offset,
                    ) {
                        Some(k) => {
                            lemma_switch_events(old(self)@, k, None);
                        },
                        None => {},
                    }
                    assert(hooks_admit(old(self)@.signal_hooks(ev@), hooks));
                    assert(self@ == old(self)@.heed_signal(ev@).heed_quit(hooks));
                }
                match sent {
                    Ok(()) => Ok(0),
                    Err(e) => Err(e),
                }
            },
            _ => {
                let mut sent = ev.clone();
                event_to_backend(&mut sent, self.port_offset, self.channel_offset);
                dispatch(backends, &sent)
            },
        }
    }

    /// Where the runner is deterministic, so are the current scene and the
    /// current sub-scene.
    proof fn lemma_current_deterministic(&self)
        ensures
            self@.deterministic() ==> {
                &&& self@.current_scene() matches Some(scene) ==> scene.deterministic()
                &&& self@.current_subscene() matches Some(sub) ==> sub.deterministic()
            },
    {
        if self@.deterministic() {
            if let Some(scene) = self@.current_scene() {
                lemma_scene_deterministic(self@.scenes, self@.current_scene_num->0 as int);
                if let Some(sub) = self@.current_subscene() {
                    lemma_scene_deterministic(
                        scene.subscenes@,
                        self@.current_subscene_num->0 as int,
                    );
                }
            }
        }
    }

    fn run_current_subscene_exit(&self, raw: &mut EventStream) -> (out: Ghost<Seq<EventView>>)
        ensures
            hooks_admit(self@.subscene_exit_hooks(), out@),
            final(raw)@ == old(raw)@ + out@,
            self@.deterministic() ==> out@ == self@.subscene_exit_events(),
    {
        proof {
            self.lemma_current_deterministic();
        }
        let mut hooks: Vec<(&Patch, RunMode)> = Vec::new();
        if let Some(scene) = get_scene(&self.scenes, self.current_scene_num) {
            if let Some(sub) = scene.get_subscene_opt(self.current_subscene_num) {
                hooks.push((&sub.patch, RunMode::Exit));
                hooks.push((&sub.exit, RunMode::Run));
            }
        }
        assert(hook_list(hooks@) =~= self@.subscene_exit_hooks());
        run_hooks(&hooks, raw)
    }

    fn run_current_scene_exit(&self, raw: &mut EventStream) -> (out: Ghost<Seq<EventView>>)
        ensures
            hooks_admit(self@.scene_exit_hooks(), out@),
            final(raw)@ == old(raw)@ + out@,
            self@.deterministic() ==> out@ == self@.scene_exit_events(),
    {
        proof {
            self.lemma_current_deterministic();
        }
        let mut hooks: Vec<(&Patch, RunMode)> = Vec::new();
        if let Some(scene) = get_scene(&self.scenes, self.current_scene_num) {
            hooks.push((&scene.patch, RunMode::Exit));
            hooks.push((&scene.exit, RunMode::Run));
        }
        hooks.push((&self.post, RunMode::Run));
        assert(hook_list(hooks@) =~= self@.scene_exit_hooks());
        run_hooks(&hooks, raw)
    }

    fn run_current_scene_init(&self, raw: &mut EventStream) -> (out: Ghost<Seq<EventView>>)
        ensures
            hooks_admit(self@.scene_init_hooks(), out@),
            final(raw)@ == old(raw)@ + out@,
            self@.deterministic() ==> out@ == self@.scene_init_events(),
    {
        proof {
            self.lemma_current_deterministic();
        }
        let mut hooks: Vec<(&Patch, RunMode)> = Vec::new();
        hooks.push((&self.pre, RunMode::Run));
        hooks.push((&self.patch, RunMode::Init));
        if let Some(scene) = get_scene(&self.scenes, self.current_scene_num) {
            hooks.push((&scene.init, RunMode::Run));
            hooks.push((&scene.patch, RunMode::Init));
        }
        assert(hook_list(hooks@) =~= self@.scene_init_hooks());
        run_hooks(&hooks, raw)
    }

    fn run_current_subscene_init(&self, raw: &mut EventStream) -> (out: Ghost<Seq<EventView>>)
        ensures
            hooks_admit(self@.subscene_init_hooks(), out@),
            final(raw)@ == old(raw)@ + out@,
            self@.deterministic() ==> out@ == self@.subscene_init_events(),
    {
        proof {
            self.lemma_current_deterministic();
        }
        let mut hooks: Vec<(&Patch, RunMode)> = Vec::new();
        if let Some(scene) = get_scene(&self.scenes, self.current_scene_num) {
            if let Some(sub) = scene.get_subscene_opt(self.current_subscene_num) {
                hooks.push((&sub.init, RunMode::Run));
                hooks.push((&sub.patch, RunMode::Init));
            }
        }
        assert(hook_list(hooks@) =~= self@.subscene_init_hooks());
        run_hooks(&hooks, raw)
    }

    /// What the patches make of the event `ev` of a transport.
    fn run_current_patches(&self, ev: &Event) -> (raw: EventStream)
        ensures
            series_admits(
                self@.tick_patches(),
                RunMode::Run,
                seq![to_user(ev@, self@.port_offset, self@.channel_offset)],
                raw@,
            ),
            self@.deterministic() ==> raw@ == self@.patched(ev@),
    {
        proof {
            self.lemma_current_deterministic();
        }
        let mut seen = ev.clone();
        event_to_user(&mut seen, self.port_offset, self.channel_offset);
        let mut patches: Vec<&Patch> = Vec::new();
        patches.push(&self.control);
        patches.push(&self.patch);
        if let Some(scene) = get_scene(&self.scenes, self.current_scene_num) {
            patches.push(&scene.patch);
            if let Some(sub) = scene.get_subscene_opt(self.current_subscene_num) {
                patches.push(&sub.patch);
            }
        }
        proof {
            assert(patch_list(patches@) =~= self@.tick_patches());
            if self@.deterministic() {
                lemma_all_deterministic(patch_list(patches@));
            }
        }
        let mut raw = EventStream::empty();
        raw.push(seen);
        run_series(&patches, &mut raw);
        raw
    }

    fn switch_subscene_core(&mut self, new_subscene_num: SceneNum, raw: &mut EventStream) -> (out:
        Ghost<Seq<EventView>>)
        requires
            old(self)@.wf(),
        ensures
            final(self)@.wf(),
            final(self)@ == old(self)@.switch_subscene(new_subscene_num).0,
            hooks_admit(old(self)@.switch_subscene_hooks(new_subscene_num), out@),
            final(raw)@ == old(raw)@ + out@,
            old(self)@.deterministic() ==> out@ == old(self)@.switch_subscene(new_subscene_num).1,
    {
        let due = match get_scene(&self.scenes, self.current_scene_num) {
            Some(scene) => (new_subscene_num as usize) < scene.subscenes.len() && (
            match self.current_subscene_num {
                Some(k) => k != new_subscene_num,
                None => true,
            }),
            None => false,
        };
        if due {
            let a = self.run_current_subscene_exit(raw);
            let c = self.current_scene_num.unwrap();
            self.current_subscene_num = Some(new_subscene_num);
            self.stored_subscene_nums[c as usize] = Some(new_subscene_num);
            let b = self.run_current_subscene_init(raw);
            proof {
                assert(self@ == old(self)@.with_subscene(new_subscene_num));
                lemma_hooks_admit_concat(
                    old(self)@.subscene_exit_hooks(),
                    a@,
                    self@.subscene_init_hooks(),
                    b@,
                );
                assert(raw@ =~= old(raw)@ + (a@ + b@));
            }
            Ghost(a@ + b@)
        } else {
            assert(raw@ =~= old(raw)@ + Seq::<EventView>::empty());
            Ghost(Seq::empty())
        }
    }

    fn switch_scene_core(
        &mut self,
        new_scene_num: SceneNum,
        new_subscene_num_opt: Option<SceneNum>,
        raw: &mut EventStream,
    ) -> (out: Ghost<Seq<EventView>>)
        requires
            old(self)@.wf(),
        ensures
            final(self)@.wf(),
            final(self)@ == old(self)@.switch_scene(new_scene_num, new_subscene_num_opt).0,
            hooks_admit(old(self)@.switch_scene_hooks(new_scene_num, new_subscene_num_opt), out@),
            final(raw)@ == old(raw)@ + out@,
            old(self)@.deterministic() ==> out@ == old(self)@.switch_scene(
                new_scene_num,
                new_subscene_num_opt,
            ).1,
    {
        let in_range = (new_scene_num as usize) < self.scenes.len();
        let same = match self.current_scene_num {
            Some(c) => c == new_scene_num,
            None => false,
        };
        let sub_ok = in_range && match new_subscene_num_opt {
            Some(k) => (k as usize) < self.scenes[new_scene_num as usize].subscenes.len(),
            None => true,
        };
        if in_range && !same && sub_ok {
            let a = self.run_current_subscene_exit(raw);
            let b = self.run_current_scene_exit(raw);
            self.current_scene_num = Some(new_scene_num);
            match new_subscene_num_opt {
                Some(k) => {
                    self.current_subscene_num = Some(k);
                    self.stored_subscene_nums[new_scene_num as usize] = Some(k);
                },
                None => {
                    self.current_subscene_num = self.stored_subscene_nums[new_scene_num as usize];
                },
            }
            let c = self.run_current_scene_init(raw);
            let d = self.run_current_subscene_init(raw);
            proof {
                let before = old(self)@;
                assert(self@ == before.with_scene(new_scene_num, new_subscene_num_opt));
                lemma_hooks_admit_concat(
                    before.subscene_exit_hooks(),
                    a@,
                    before.scene_exit_hooks(),
                    b@,
                );
                lemma_hooks_admit_concat(
                    before.subscene_exit_hooks() + before.scene_exit_hooks(),
                    a@ + b@,
                    self@.scene_init_hooks(),
                    c@,
                );
                lemma_hooks_admit_concat(
                    before.subscene_exit_hooks() + before.scene_exit_hooks()
                        + self@.scene_init_hooks(),
                    a@ + b@ + c@,
                    self@.subscene_init_hooks(),
                    d@,
                );
                assert(raw@ =~= old(raw)@ + (a@ + b@ + c@ + d@));
            }
            Ghost(a@ + b@ + c@ + d@)
        } else if same && new_subscene_num_opt.is_some() {
            self.switch_subscene_core(new_subscene_num_opt.unwrap(), raw)
        } else {
            assert(raw@ =~= old(raw)@ + Seq::<EventView>::empty());
            Ghost(Seq::empty())
        }
    }

    /// Switches to sub-scene `new_subscene_num` of the current scene, where
    /// there is such a sub-scene and it is not the current one, and adds to
    /// `raw` what the hooks made.
    pub fn switch_subscene_internal(&mut self, new_subscene_num: SceneNum, raw: &mut EventStream)
        requires
            old(self)@.wf(),
        ensures
            final(self)@.wf(),
            final(self)@ == old(self)@.switch_subscene(new_subscene_num).0,
            exists|out: Seq<EventView>| #[trigger]
                hooks_admit(old(self)@.switch_subscene_hooks(new_subscene_num), out)
                    && final(raw)@ == old(raw)@ + out,
            old(self)@.deterministic() ==> final(raw)@ == old(raw)@ + old(self)@.switch_subscene(
                new_subscene_num,
            ).1,
    {
        let out = self.switch_subscene_core(new_subscene_num, raw);
        assert(hooks_admit(old(self)@.switch_subscene_hooks(new_subscene_num), out@) && raw@
            == old(raw)@ + out@);
    }

    /// Switches to scene `new_scene_num`, with sub-scene
    /// `new_subscene_num_opt` if one is given, where there is such a scene,
    /// and adds to `raw` what the hooks made.
    pub fn switch_scene_internal(
        &mut self,
        new_scene_num: SceneNum,
        new_subscene_num_opt: Option<SceneNum>,
        raw: &mut EventStream,
    )
        requires
            old(self)@.wf(),
        ensures
            final(self)@.wf(),
            final(self)@ == old(self)@.switch_scene(new_scene_num, new_subscene_num_opt).0,
            exists|out: Seq<EventView>| #[trigger]
                hooks_admit(
                    old(self)@.switch_scene_hooks(new_scene_num, new_subscene_num_opt),
                    out,
                ) && final(raw)@ == old(raw)@ + out,
            old(self)@.deterministic() ==> final(raw)@ == old(raw)@ + old(self)@.switch_scene(
                new_scene_num,
                new_subscene_num_opt,
            ).1,
    {
        let out = self.switch_scene_core(new_scene_num, new_subscene_num_opt, raw);
        assert(hooks_admit(
            old(self)@.switch_scene_hooks(new_scene_num, new_subscene_num_opt),
            out@,
        ) && raw@ == old(raw)@ + out@);
    }

    /// Starts the run: enters the initial scene and its sub-scene, and
    /// returns what the hooks made for the transports.
    pub fn start(&mut self) -> (out: EventStream)
        requires
            old(self)@.wf(),
        ensures
            final(self)@.wf(),
            old(self)@.same_setup(final(self)@),
            old(self)@.started(final(self)@, out@),
            old(self)@.deterministic() ==> {
                &&& final(self)@ == old(self)@.start().0
                &&& out@ == emitted(
                    old(self)@.start().1,
                    old(self)@.port_offset,
                    old(self)@.channel_offset,
                )
            },
    {
        let mut raw = EventStream::empty();
        if (self.initial_scene_num as usize) < self.scenes.len() {
            self.current_scene_num = Some(self.initial_scene_num);
            self.current_subscene_num = self.stored_subscene_nums[self.initial_scene_num as usize];
        }
        self.running = true;
        let a = self.run_current_scene_init(&mut raw);
        let b = self.run_current_subscene_init(&mut raw);
        proof {
            assert(self@ == old(self)@.entered());
            lemma_hooks_admit_concat(self@.scene_init_hooks(), a@, self@.subscene_init_hooks(), b@);
            assert(raw@ =~= a@ + b@);
        }
        if find_quit(&raw) {
            self.running = false;
        }
        let out = emit(&raw, self.port_offset, self.channel_offset);
        assert(hooks_admit(old(self)@.start_hooks(), raw@) && self@
            == old(self)@.entered().heed_quit(raw@) && out@ == emitted(
            raw@,
            old(self)@.port_offset,
            old(self)@.channel_offset,
        ));
        out
    }

    /// Works one event of a transport off: runs the patches on it, one
    /// after the other, heeds the signals among what the last of them left,
    /// and returns what is for the transports, in order.
    pub fn tick(&mut self, ev: &Event) -> (out: EventStream)
        requires
            old(self)@.wf(),
        ensures
            final(self)@.wf(),
            old(self)@.same_setup(final(self)@),
            old(self)@.ticked(ev@, final(self)@, out@),
            old(self)@.deterministic() ==> {
                &&& final(self)@ == old(self)@.tick(ev@).0
                &&& out@ == emitted(
                    old(self)@.tick(ev@).1,
                    old(self)@.port_offset,
                    old(self)@.channel_offset,
                )
            },
    {
        let raw = self.run_current_patches(ev);
        let mut all = raw.clone();
        let ghost mut scene_hooks = Seq::<EventView>::empty();
        if let Some(target) = find_scene_switch(&raw) {
            if let Some(n) = resolve_target(target, self.current_scene_num, self.scene_offset) {
                let h = self.switch_scene_core(n, None, &mut all);
                proof {
                    scene_hooks = h@;
                }
            }
        }
        let ghost after_scene = self@;
        proof {
            assert(after_scene == old(self)@.heed_scene_switch(raw@).0);
            assert(old(self)@.same_setup(after_scene));
            assert(hooks_admit(old(self)@.heed_scene_switch_hooks(raw@), scene_hooks));
            assert(all@ =~= raw@ + scene_hooks);
            assert(old(self)@.deterministic() ==> scene_hooks == old(self)@.heed_scene_switch(
                raw@,
            ).1);
        }
        let ghost mut subscene_hooks = Seq::<EventView>::empty();
        if let Some(target) = find_subscene_switch(&raw) {
            if let Some(k) = resolve_target(target, self.current_subscene_num, self.scene_offset) {
                let h = self.switch_subscene_core(k, &mut all);
                proof {
                    subscene_hooks = h@;
                }
            }
        }
        proof {
            assert(hooks_admit(after_scene.heed_subscene_switch_hooks(raw@), subscene_hooks));
            lemma_hooks_admit_concat(
                old(self)@.heed_scene_switch_hooks(raw@),
                scene_hooks,
                after_scene.heed_subscene_switch_hooks(raw@),
                subscene_hooks,
            );
            assert(all@ =~= raw@ + (scene_hooks + subscene_hooks));
            assert(old(self)@.deterministic() ==> all@ =~= old(self)@.tick(ev@).1);
        }
        if find_quit(&all) {
            self.running = false;
        }
        let out = emit(&all, self.port_offset, self.channel_offset);
        assert(self@ == old(self)@.heeded(raw@, scene_hooks + subscene_hooks) && series_admits(
            old(self)@.tick_patches(),
            RunMode::Run,
            seq![to_user(ev@, old(self)@.port_offset, old(self)@.channel_offset)],
            raw@,
        ) && hooks_admit(old(self)@.tick_hooks(raw@), scene_hooks + subscene_hooks) && out@
            == emitted(
            raw@ + (scene_hooks + subscene_hooks),
            old(self)@.port_offset,
            old(self)@.channel_offset,
        ));
        out
    }

    /// Works the events of a transport off, one tick each, and returns what
    /// is for the transports, in order.
    pub fn process(&mut self, events: &EventStream) -> (out: EventStream)
        requires
            old(self)@.wf(),
        ensures
            final(self)@.wf(),
            old(self)@.same_setup(final(self)@),
            old(self)@.worked_off(events@, final(self)@, out@),
            old(self)@.deterministic() ==> {
                &&& final(self)@ == old(self)@.ticks(events@).0
                &&& out@ == old(self)@.ticks(events@).1
            },
    {
        let mut out = EventStream::empty();
        let mut i: usize = 0;
        assert(events@.take(0) =~= Seq::<EventView>::empty());
        while i < events.len()
            invariant
                i <= events@.len(),
                self@.wf(),
                old(self)@.same_setup(self@),
                old(self)@.worked_off(events@.take(i as int), self@, out@),
                old(self)@.deterministic() ==> {
                    &&& self@ == old(self)@.ticks(events@.take(i as int)).0
                    &&& out@ == old(self)@.ticks(events@.take(i as int)).1
                },
            decreases events@.len() - i,
        {
            proof {
                assert(events@.take(i + 1).drop_last() =~= events@.take(i as int));
            }
            let ghost mid = self@;
            let ghost front = out@;
            let sent = self.tick(events.get(i));
            let ghost back = sent@;
            out.extend(sent);
            assert(some_stream(front) && old(self)@.worked_off(
                events@.take(i + 1).drop_last(),
                mid,
                front,
            ) && mid.ticked(events@.take(i + 1).last(), self@, back) && out@ == front + back);
            i += 1;
        }
        assert(events@.take(i as int) =~= events@);
        out
    }

    /// Switches to the scene that the user counts as `scene`, and returns
    /// what the hooks made for the transports.
    pub fn switch_scene(&mut self, scene: SceneNum) -> (out: EventStream)
        requires
            old(self)@.wf(),
        ensures
            final(self)@.wf(),
            old(self)@.same_setup(final(self)@),
            exists|hooks: Seq<EventView>|
                {
                    &&& #[trigger] hooks_admit(
                        old(self)@.switch_scene_hooks(
                            byte_down(scene, old(self)@.scene_offset),
                            None,
                        ),
                        hooks,
                    )
                    &&& final(self)@ == old(self)@.switch_scene(
                        byte_down(scene, old(self)@.scene_offset),
                        None,
                    ).0.heed_quit(hooks)
                    &&& out@ == emitted(
                        hooks,
                        old(self)@.port_offset,
                        old(self)@.channel_offset,
                    )
                },
            old(self)@.deterministic() ==> ({
                let (next, raw) = old(self)@.switch_scene(
                    byte_down(scene, old(self)@.scene_offset),
                    None,
                );
                &&& final(self)@ == next.heed_quit(raw)
                &&& out@ == emitted(raw, old(self)@.port_offset, old(self)@.channel_offset)
            }),
    {
        let mut raw = EventStream::empty();
        let h = self.switch_scene_core(scene.saturating_sub(self.scene_offset), None, &mut raw);
        assert(raw@ =~= h@);
        if find_quit(&raw) {
            self.running = false;
        }
        assert(hooks_admit(
            old(self)@.switch_scene_hooks(byte_down(scene, old(self)@.scene_offset), None),
            raw@,
        ) && self@ == old(self)@.switch_scene(
            byte_down(scene, old(self)@.scene_offset),
            None,
        ).0.heed_quit(raw@));
        emit(&raw, self.port_offset, self.channel_offset)
    }

    /// Switches to the sub-scene of the current scene that the user counts
    /// as `subscene`, and returns what the hooks made for the transports.
    pub fn switch_subscene(&mut self, subscene: SceneNum) -> (out: EventStream)
        requires
            old(self)@.wf(),
        ensures
            final(self)@.wf(),
            old(self)@.same_setup(final(self)@),
            exists|hooks: Seq<EventView>|
                {
                    &&& #[trigger] hooks_admit(
                        old(self)@.switch_subscene_hooks(
                            byte_down(subscene, old(self)@.scene_offset),
                        ),
                        hooks,
                    )
                    &&& final(self)@ == old(self)@.switch_subscene(
                        byte_down(subscene, old(self)@.scene_offset),
                    ).0.heed_quit(hooks)
                    &&& out@ == emitted(
                        hooks,
                        old(self)@.port_offset,
                        old(self)@.channel_offset,
                    )
                },
            old(self)@.deterministic() ==> ({
                let (next, raw) = old(self)@.switch_subscene(
                    byte_down(subscene, old(self)@.scene_offset),
                );
                &&& final(self)@ == next.heed_quit(raw)
                &&& out@ == emitted(raw, old(self)@.port_offset, old(self)@.channel_offset)
            }),
    {
        let mut raw = EventStream::empty();
        let h = self.switch_subscene_core(subscene.saturating_sub(self.scene_offset), &mut raw);
        assert(raw@ =~= h@);
        if find_quit(&raw) {
            self.running = false;
        }
        assert(hooks_admit(
            old(self)@.switch_subscene_hooks(byte_down(subscene, old(self)@.scene_offset)),
            raw@,
        ) && self@ == old(self)@.switch_subscene(
            byte_down(subscene, old(self)@.scene_offset),
        ).0.heed_quit(raw@));
        emit(&raw, self.port_offset, self.channel_offset)
    }
}

} // verus!
