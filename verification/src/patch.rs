//! Patches: the nodes of the catalogue put together in series, in parallel,
//! under a negation or under an init or exit hook, and the two places where
//! code of the user comes in.
use crate::event::{
    lemma_osc_args_view, osc_args_view, Event, EventView, OscType, OscTypeTag, OscTypeView,
};
use crate::event_stream::{dedup_spec, lemma_dedup_properties, EventStream};
use crate::filter_trait::FilterTrait;
use crate::filters::{EventType, Filter};
use crate::generators::Generator;
use crate::modifiers::Modifier;
use crate::nodes::{Discard, Panic, Pass, Print, Quit, SceneSwitch};
use crate::osc::OscStripPrefix;
use vstd::prelude::*;
use vstd::std_specs::convert::FromSpecImpl;

verus! {

/// How the children of a composite node are connected.
#[derive(Debug, Copy, Clone, PartialEq, Eq, Hash, Structural)]
pub enum ConnectionType {
    /// In series: each child works on what the one before it left.
    Chain,
    /// In parallel: each child works on a copy of the input, and the results
    /// are put one after the other.
    Fork,
}

/// The four ways to run a node.
#[derive(Debug, Copy, Clone, PartialEq, Eq, Hash, Structural)]
pub enum RunMode {
    Run,
    Inverse,
    Init,
    Exit,
}

/// A composite node: an ordered list of children and the way they are connected.
pub struct FilterChain {
    pub filters: Vec<Patch>,
    pub connection: ConnectionType,
}

/// Negation: runs the inner node's inverse in place of the node, and the
/// node in place of its inverse.
pub struct _Not(pub Box<Patch>);

/// Runs the inner node when the scene or patch is entered, and at no other time.
pub struct _Init(pub Box<Patch>);

/// Runs the inner node when the scene or patch is left, and at no other time.
pub struct _Exit(pub Box<Patch>);

/// The patch that a function of the user hands back.
pub struct OscPatch(pub Box<dyn FilterTrait>);

/// A function of the user's, from the arguments of an OSC message to the
/// patch that is to work on that message.
///
/// The relation `can_return` says which patches the function can return for
/// which arguments. A function that says nothing of itself can return any.
pub trait OscFn {
    /// Whether `p` can be the patch for a message with the arguments `args`.
    open spec fn can_return(&self, args: Seq<OscTypeView>, p: OscPatch) -> bool {
        true
    }

    /// The patch for a message with the arguments `args`.
    fn patch(&self, args: &Vec<OscType>) -> (p: OscPatch)
        ensures
            self.can_return(osc_args_view(args@), p),
    ;
}

/// The arguments of an OSC message; none for any other event.
pub open spec fn osc_args_of(e: EventView) -> Seq<OscTypeView> {
    match e {
        EventView::Osc { args, .. } => args,
        _ => Seq::empty(),
    }
}

/// A node of the user's own making.
///
/// The relation `makes` says what the node can make of a stream in each
/// mode. A node that says nothing of itself can make anything.
pub trait CustomFilter {
    /// Whether the node, run in `mode`, can make `post` of `pre`.
    open spec fn makes(&self, mode: RunMode, pre: Seq<EventView>, post: Seq<EventView>) -> bool {
        true
    }

    /// Processes the events of one tick.
    fn run(&self, evs: &mut EventStream)
        ensures
            self.makes(RunMode::Run, old(evs)@, final(evs)@),
    ;

    /// What the node does in place of `run` when it stands under a negation.
    fn run_inverse(&self, evs: &mut EventStream)
        ensures
            self.makes(RunMode::Inverse, old(evs)@, final(evs)@),
    ;

    /// Runs when the scene or patch that holds the node is entered.
    fn run_init(&self, evs: &mut EventStream)
        ensures
            self.makes(RunMode::Init, old(evs)@, final(evs)@),
    ;

    /// Runs when the scene or patch that holds the node is left.
    fn run_exit(&self, evs: &mut EventStream)
        ensures
            self.makes(RunMode::Exit, old(evs)@, final(evs)@),
    ;
}

/// An OSC processor: replaces each OSC message whose arguments are of the
/// kinds in `pattern`, in that order, by what the patch that `f` returns for
/// those arguments makes of the message.
pub struct _ProcessOsc {
    pub pattern: Vec<OscTypeTag>,
    pub f: Box<dyn OscFn>,
}

/// A node of a patch.
pub enum Patch {
    Filter(Filter),
    Modifier(Modifier),
    Generator(Generator),
    Pass(Pass),
    Discard(Discard),
    Quit(Quit),
    Print(Print),
    Panic(Panic),
    SceneSwitch(SceneSwitch),
    OscStripPrefix(OscStripPrefix),
    Composite(FilterChain),
    Not(_Not),
    Init(_Init),
    Exit(_Exit),
    ProcessOsc(_ProcessOsc),
    Custom(Box<dyn CustomFilter>),
}

/// What a node of the catalogue makes of `s` when run in `mode`.
pub open spec fn leaf_eval<T: FilterTrait + ?Sized>(
    node: &T,
    mode: RunMode,
    s: Seq<EventView>,
) -> Seq<EventView> {
    match mode {
        RunMode::Run => node.run_spec(s),
        RunMode::Inverse => node.run_inverse_spec(s),
        RunMode::Init => node.run_init_spec(s),
        RunMode::Exit => node.run_exit_spec(s),
    }
}

/// The kinds of the arguments in `args`, in order.
pub open spec fn osc_tags(args: Seq<OscTypeView>) -> Seq<OscTypeTag> {
    Seq::new(args.len(), |i: int| args[i].tag())
}

/// The views of a list of streams, in order.
pub open spec fn streams_view(parts: Seq<EventStream>) -> Seq<Seq<EventView>> {
    parts.map_values(|p: EventStream| p@)
}

/// The streams `parts` one after the other.
pub open spec fn joined(parts: Seq<Seq<EventView>>) -> Seq<EventView>
    decreases parts.len(),
{
    if parts.len() == 0 {
        Seq::empty()
    } else {
        joined(parts.drop_last()) + parts.last()
    }
}

impl _ProcessOsc {
    /// Whether the processor works on `e`: an OSC message whose arguments
    /// have the kinds of the pattern.
    pub open spec fn handles(&self, e: EventView) -> bool {
        match e {
            EventView::Osc { args, .. } => osc_tags(args) == self.pattern@,
            _ => false,
        }
    }

    /// Whether `part` can take the place of `e`. An event that the
    /// processor does not work on stands for itself. In the place of a
    /// message that it works on stands what a patch makes of the message
    /// alone that the user's function can return for its arguments; where
    /// that patch holds code of the user, anything.
    pub open spec fn replaces(&self, e: EventView, part: Seq<EventView>) -> bool {
        if self.handles(e) {
            exists|p: OscPatch| #[trigger]
                self.f.can_return(osc_args_of(e), p) && (p.0.deterministic() ==> part
                    == p.0.run_spec(seq![e]))
        } else {
            part == seq![e]
        }
    }

    /// Whether `parts` can take the place of the events of `before`: there
    /// is one part for each event, in order, which can take its place.
    pub open spec fn splices(&self, before: Seq<EventView>, parts: Seq<Seq<EventView>>) -> bool {
        &&& parts.len() == before.len()
        &&& forall|i: int| 0 <= i < before.len() ==> self.replaces(before[i], #[trigger] parts[i])
    }
}

/// Whether all of `fs` are deterministic.
pub open spec fn all_deterministic(fs: Seq<Patch>) -> bool
    decreases fs, 0nat,
{
    if fs.len() == 0 {
        true
    } else {
        all_deterministic(fs.drop_last()) && fs.last().is_deterministic()
    }
}

/// What the children `fs` make of `s` when each in turn, from first to last,
/// works in `mode` on what the one before it left.
pub open spec fn series_eval(fs: Seq<Patch>, mode: RunMode, s: Seq<EventView>) -> Seq<EventView>
    decreases fs, 0nat,
{
    if fs.len() == 0 {
        s
    } else {
        fs.last().eval(mode, series_eval(fs.drop_last(), mode, s))
    }
}

/// What the children `fs` make of `s` when each works in `mode` on `s`
/// itself: the results, one after the other in the order of the children.
pub open spec fn parallel_eval(fs: Seq<Patch>, mode: RunMode, s: Seq<EventView>) -> Seq<EventView>
    decreases fs, 0nat,
{
    if fs.len() == 0 {
        Seq::empty()
    } else {
        parallel_eval(fs.drop_last(), mode, s) + fs.last().eval(mode, s)
    }
}

impl FilterChain {
    /// What the composite makes of `s` when run in `mode`.
    ///
    /// A chain runs its children in series and a fork in parallel; under
    /// negation the two change places. Either way duplicates are removed at
    /// the end. The init and exit hooks pass through the children in series.
    pub open spec fn eval(&self, mode: RunMode, s: Seq<EventView>) -> Seq<EventView>
        decreases self, 1nat,
    {
        match mode {
            RunMode::Run => match self.connection {
                ConnectionType::Chain => dedup_spec(series_eval(self.filters@, mode, s)),
                ConnectionType::Fork => dedup_spec(parallel_eval(self.filters@, mode, s)),
            },
            RunMode::Inverse => match self.connection {
                ConnectionType::Chain => dedup_spec(parallel_eval(self.filters@, mode, s)),
                ConnectionType::Fork => dedup_spec(series_eval(self.filters@, mode, s)),
            },
            _ => series_eval(self.filters@, mode, s),
        }
    }
}

impl Patch {
    /// Whether what the node does is a function of the stream alone: whether
    /// it holds no code of the user.
    pub open spec fn is_deterministic(&self) -> bool
        decreases self, 1nat,
    {
        match self {
            Patch::Composite(c) => all_deterministic(c.filters@),
            Patch::Not(n) => n.0.is_deterministic(),
            Patch::Init(n) => n.0.is_deterministic(),
            Patch::Exit(n) => n.0.is_deterministic(),
            Patch::ProcessOsc(_) => false,
            Patch::Custom(_) => false,
            _ => true,
        }
    }

    /// What the node makes of `s` when run in `mode`.
    ///
    /// Of a node that holds code of the user this says nothing that the node
    /// is held to: there the stream stands for itself.
    pub open spec fn eval(&self, mode: RunMode, s: Seq<EventView>) -> Seq<EventView>
        decreases self, 2nat,
    {
        match self {
            Patch::Filter(f) => leaf_eval(f, mode, s),
            Patch::Modifier(m) => leaf_eval(m, mode, s),
            Patch::Generator(g) => leaf_eval(g, mode, s),
            Patch::Pass(n) => leaf_eval(n, mode, s),
            Patch::Discard(n) => leaf_eval(n, mode, s),
            Patch::Quit(n) => leaf_eval(n, mode, s),
            Patch::Print(n) => leaf_eval(n, mode, s),
            Patch::Panic(n) => leaf_eval(n, mode, s),
            Patch::SceneSwitch(n) => leaf_eval(n, mode, s),
            Patch::OscStripPrefix(n) => leaf_eval(n, mode, s),
            Patch::Composite(c) => c.eval(mode, s),
            Patch::Not(n) => match mode {
                RunMode::Run => n.0.eval(RunMode::Inverse, s),
                RunMode::Inverse => n.0.eval(RunMode::Run, s),
                _ => s,
            },
            Patch::Init(n) => match mode {
                RunMode::Init => n.0.eval(RunMode::Run, s),
                _ => s,
            },
            Patch::Exit(n) => match mode {
                RunMode::Exit => n.0.eval(RunMode::Run, s),
                _ => s,
            },
            Patch::ProcessOsc(_) => s,
            Patch::Custom(_) => s,
        }
    }
}

/// Holds of every stream. It marks the streams that the definitions below
/// speak of as "there is a stream such that".
pub open spec fn some_stream(s: Seq<EventView>) -> bool {
    true
}

/// Whether `post` can come of `pre` when the children `fs` work in `mode`
/// in series: whether there are streams between the children such that
/// each child can make of the one before it the one behind it.
pub open spec fn series_admits(
    fs: Seq<Patch>,
    mode: RunMode,
    pre: Seq<EventView>,
    post: Seq<EventView>,
) -> bool
    decreases fs, 0nat,
{
    if fs.len() == 0 {
        post == pre
    } else {
        exists|mid: Seq<EventView>| #[trigger]
            some_stream(mid) && series_admits(fs.drop_last(), mode, pre, mid) && fs.last().admits(
                mode,
                mid,
                post,
            )
    }
}

/// Whether `post` can come of `pre` when the children `fs` work in `mode`
/// in parallel: whether `post` is made of one stream for each child, in
/// the order of the children, each of which that child can make of `pre`.
pub open spec fn parallel_admits(
    fs: Seq<Patch>,
    mode: RunMode,
    pre: Seq<EventView>,
    post: Seq<EventView>,
) -> bool
    decreases fs, 0nat,
{
    if fs.len() == 0 {
        post == Seq::<EventView>::empty()
    } else {
        exists|front: Seq<EventView>, back: Seq<EventView>|
            #![trigger some_stream(front), some_stream(back)]
            some_stream(front) && some_stream(back) && parallel_admits(
                fs.drop_last(),
                mode,
                pre,
                front,
            ) && fs.last().admits(mode, pre, back) && post == front + back
    }
}

impl FilterChain {
    /// Whether the composite, run in `mode`, can make `post` of `pre`.
    pub open spec fn admits(&self, mode: RunMode, pre: Seq<EventView>, post: Seq<EventView>) -> bool
        decreases self, 1nat,
    {
        let series = (mode is Run && self.connection is Chain) || (mode is Inverse
            && self.connection is Fork);
        if mode is Init || mode is Exit {
            series_admits(self.filters@, mode, pre, post)
        } else if series {
            exists|all: Seq<EventView>| #[trigger]
                some_stream(all) && series_admits(self.filters@, mode, pre, all) && post
                    == dedup_spec(all)
        } else {
            exists|all: Seq<EventView>| #[trigger]
                some_stream(all) && parallel_admits(self.filters@, mode, pre, all) && post
                    == dedup_spec(all)
        }
    }
}

impl Patch {
    /// Whether the node, run in `mode`, can make `post` of `pre`.
    ///
    /// A node of the catalogue can make one stream only, the one that `eval`
    /// names. An OSC processor can put anything in the place of a message
    /// that it works on, and must leave every other event in its place. Of
    /// a node of the user's own making nothing is known.
    pub open spec fn admits(&self, mode: RunMode, pre: Seq<EventView>, post: Seq<EventView>) -> bool
        decreases self, 2nat,
    {
        match self {
            Patch::Composite(c) => c.admits(mode, pre, post),
            Patch::Not(n) => match mode {
                RunMode::Run => n.0.admits(RunMode::Inverse, pre, post),
                RunMode::Inverse => n.0.admits(RunMode::Run, pre, post),
                _ => post == pre,
            },
            Patch::Init(n) => match mode {
                RunMode::Init => n.0.admits(RunMode::Run, pre, post),
                _ => post == pre,
            },
            Patch::Exit(n) => match mode {
                RunMode::Exit => n.0.admits(RunMode::Run, pre, post),
                _ => post == pre,
            },
            Patch::ProcessOsc(p) => if mode is Run || mode is Inverse {
                exists|parts: Seq<Seq<EventView>>| #[trigger]
                    p.splices(pre, parts) && post == dedup_spec(joined(parts))
            } else {
                post == pre
            },
            Patch::Custom(c) => c.makes(mode, pre, post),
            _ => post == self.eval(mode, pre),
        }
    }
}

/// What deterministic nodes can make in series is what `series_eval` names.
pub proof fn lemma_series_admits_deterministic(
    fs: Seq<Patch>,
    mode: RunMode,
    pre: Seq<EventView>,
    post: Seq<EventView>,
)
    requires
        all_deterministic(fs),
    ensures
        series_admits(fs, mode, pre, post) <==> post == series_eval(fs, mode, pre),
    decreases fs, 0nat,
{
    if fs.len() > 0 {
        let expected = series_eval(fs.drop_last(), mode, pre);
        if series_admits(fs, mode, pre, post) {
            let mid = choose|mid: Seq<EventView>| #[trigger]
                some_stream(mid) && series_admits(fs.drop_last(), mode, pre, mid)
                    && fs.last().admits(mode, mid, post);
            lemma_series_admits_deterministic(fs.drop_last(), mode, pre, mid);
            lemma_admits_deterministic(fs.last(), mode, mid, post);
        }
        if post == series_eval(fs, mode, pre) {
            lemma_series_admits_deterministic(fs.drop_last(), mode, pre, expected);
            lemma_admits_deterministic(fs.last(), mode, expected, post);
            assert(some_stream(expected) && series_admits(fs.drop_last(), mode, pre, expected)
                && fs.last().admits(mode, expected, post));
        }
    }
}

/// What deterministic nodes can make in parallel is what `parallel_eval` names.
pub proof fn lemma_parallel_admits_deterministic(
    fs: Seq<Patch>,
    mode: RunMode,
    pre: Seq<EventView>,
    post: Seq<EventView>,
)
    requires
        all_deterministic(fs),
    ensures
        parallel_admits(fs, mode, pre, post) <==> post == parallel_eval(fs, mode, pre),
    decreases fs, 0nat,
{
    if fs.len() > 0 {
        let front_expected = parallel_eval(fs.drop_last(), mode, pre);
        let back_expected = fs.last().eval(mode, pre);
        if parallel_admits(fs, mode, pre, post) {
            let (front, back) = choose|front: Seq<EventView>, back: Seq<EventView>|
                #![trigger some_stream(front), some_stream(back)]
                some_stream(front) && some_stream(back) && parallel_admits(
                    fs.drop_last(),
                    mode,
                    pre,
                    front,
                ) && fs.last().admits(mode, pre, back) && post == front + back;
            lemma_parallel_admits_deterministic(fs.drop_last(), mode, pre, front);
            lemma_admits_deterministic(fs.last(), mode, pre, back);
        }
        if post == parallel_eval(fs, mode, pre) {
            lemma_parallel_admits_deterministic(fs.drop_last(), mode, pre, front_expected);
            lemma_admits_deterministic(fs.last(), mode, pre, back_expected);
            assert(some_stream(front_expected) && some_stream(back_expected) && parallel_admits(
                fs.drop_last(),
                mode,
                pre,
                front_expected,
            ) && fs.last().admits(mode, pre, back_expected) && post == front_expected
                + back_expected);
        }
    }
}

/// What a deterministic node can make of a stream is what `eval` names,
/// and nothing else.
pub proof fn lemma_admits_deterministic(
    g: Patch,
    mode: RunMode,
    pre: Seq<EventView>,
    post: Seq<EventView>,
)
    requires
        g.is_deterministic(),
    ensures
        g.admits(mode, pre, post) <==> post == g.eval(mode, pre),
    decreases g, 2nat,
{
    match g {
        Patch::Composite(c) => {
            let series = series_eval(c.filters@, mode, pre);
            let parallel = parallel_eval(c.filters@, mode, pre);
            lemma_series_admits_deterministic(c.filters@, mode, pre, series);
            lemma_parallel_admits_deterministic(c.filters@, mode, pre, parallel);
            lemma_series_admits_deterministic(c.filters@, mode, pre, post);
            assert forall|all: Seq<EventView>| #[trigger]
                some_stream(all) && series_admits(c.filters@, mode, pre, all) implies all
                == series by {
                lemma_series_admits_deterministic(c.filters@, mode, pre, all);
            }
            assert forall|all: Seq<EventView>| #[trigger]
                some_stream(all) && parallel_admits(c.filters@, mode, pre, all) implies all
                == parallel by {
                lemma_parallel_admits_deterministic(c.filters@, mode, pre, all);
            }
            assert(some_stream(series) && some_stream(parallel));
            assert(c.admits(mode, pre, post) <==> post == c.eval(mode, pre));
        },
        Patch::Not(n) => {
            lemma_admits_deterministic(*n.0, RunMode::Inverse, pre, post);
            lemma_admits_deterministic(*n.0, RunMode::Run, pre, post);
        },
        Patch::Init(n) => {
            lemma_admits_deterministic(*n.0, RunMode::Run, pre, post);
        },
        Patch::Exit(n) => {
            lemma_admits_deterministic(*n.0, RunMode::Run, pre, post);
        },
        _ => {},
    }
}

/// Runs a node in `mode`.
fn leaf_exec<T: FilterTrait + ?Sized>(node: &T, mode: RunMode, evs: &mut EventStream)
    ensures
        node.deterministic() ==> final(evs)@ == leaf_eval(node, mode, old(evs)@),
{
    match mode {
        RunMode::Run => node.run(evs),
        RunMode::Inverse => node.run_inverse(evs),
        RunMode::Init => node.run_init(evs),
        RunMode::Exit => node.run_exit(evs),
    }
}

/// Runs a node of the user's in `mode`.
fn custom_exec(node: &Box<dyn CustomFilter>, mode: RunMode, evs: &mut EventStream)
    ensures
        node.makes(mode, old(evs)@, final(evs)@),
{
    match mode {
        RunMode::Run => node.run(evs),
        RunMode::Inverse => node.run_inverse(evs),
        RunMode::Init => node.run_init(evs),
        RunMode::Exit => node.run_exit(evs),
    }
}

/// Whether the arguments in `args` have the kinds in `pattern`, in order.
pub fn osc_args_match(args: &Vec<OscType>, pattern: &Vec<OscTypeTag>) -> (b: bool)
    ensures
        b == (osc_tags(osc_args_view(args@)) == pattern@),
{
    proof {
        lemma_osc_args_view(args@);
    }
    if args.len() != pattern.len() {
        return false;
    }
    let mut i: usize = 0;
    while i < args.len()
        invariant
            i <= args.len(),
            args.len() == pattern.len(),
            osc_args_view(args@).len() == args.len(),
            forall|j: int| 0 <= j < args.len() ==> #[trigger] osc_args_view(args@)[j] == args@[j]@,
            forall|j: int| 0 <= j < i ==> args@[j]@.tag() == pattern@[j],
        decreases args.len() - i,
    {
        if !tag_eq(args[i].tag(), pattern[i]) {
            assert(osc_tags(osc_args_view(args@))[i as int] != pattern@[i as int]);
            return false;
        }
        i += 1;
    }
    assert(osc_tags(osc_args_view(args@)) =~= pattern@);
    true
}

/// Whether two kinds of argument are the same.
pub fn tag_eq(a: OscTypeTag, b: OscTypeTag) -> (r: bool)
    ensures
        r == (a == b),
{
    match (a, b) {
        (OscTypeTag::Int, OscTypeTag::Int) => true,
        (OscTypeTag::Float, OscTypeTag::Float) => true,
        (OscTypeTag::String, OscTypeTag::String) => true,
        (OscTypeTag::Blob, OscTypeTag::Blob) => true,
        (OscTypeTag::Time, OscTypeTag::Time) => true,
        (OscTypeTag::Long, OscTypeTag::Long) => true,
        (OscTypeTag::Double, OscTypeTag::Double) => true,
        (OscTypeTag::Char, OscTypeTag::Char) => true,
        (OscTypeTag::Color, OscTypeTag::Color) => true,
        (OscTypeTag::Midi, OscTypeTag::Midi) => true,
        (OscTypeTag::Bool, OscTypeTag::Bool) => true,
        (OscTypeTag::Array, OscTypeTag::Array) => true,
        (OscTypeTag::Nil, OscTypeTag::Nil) => true,
        (OscTypeTag::Inf, OscTypeTag::Inf) => true,
        _ => false,
    }
}

/// What `patch` makes of the event `ev` alone.
pub fn run_on_event(patch: &OscPatch, ev: &Event) -> (out: EventStream)
    ensures
        patch.0.deterministic() ==> out@ == patch.0.run_spec(seq![ev@]),
{
    let mut out = EventStream::from(ev);
    patch.0.run(&mut out);
    out
}

/// The streams `parts` one after the other.
pub fn join(parts: &Vec<EventStream>) -> (out: EventStream)
    ensures
        out@ == joined(streams_view(parts@)),
{
    let mut out = EventStream::empty();
    let mut i: usize = 0;
    while i < parts.len()
        invariant
            i <= parts.len(),
            out@ == joined(streams_view(parts@).take(i as int)),
        decreases parts.len() - i,
    {
        proof {
            assert(streams_view(parts@).take(i + 1).drop_last() =~= streams_view(parts@).take(
                i as int,
            ));
        }
        out.extend(parts[i].clone());
        i += 1;
    }
    assert(streams_view(parts@).take(i as int) =~= streams_view(parts@));
    out
}

impl _ProcessOsc {
    /// What takes the place of `ev`: what the patch that the user's function
    /// returns for the arguments of `ev` makes of `ev`, where the processor
    /// works on `ev`; else `ev` itself.
    pub fn replace_single(&self, ev: &Event) -> (out: EventStream)
        ensures
            self.replaces(ev@, out@),
    {
        match ev {
            Event::Osc(e) => {
                if osc_args_match(&e.args, &self.pattern) {
                    let patch = self.f.patch(&e.args);
                    let out = run_on_event(&patch, ev);
                    assert(self.f.can_return(osc_args_of(ev@), patch) && (patch.0.deterministic()
                        ==> out@ == patch.0.run_spec(seq![ev@])));
                    out
                } else {
                    EventStream::from(ev)
                }
            },
            _ => EventStream::from(ev),
        }
    }

    /// For each event of `evs`, in order, what takes its place.
    pub fn replacements(&self, evs: &EventStream) -> (parts: Vec<EventStream>)
        ensures
            self.splices(evs@, streams_view(parts@)),
    {
        let mut parts: Vec<EventStream> = Vec::new();
        let mut i: usize = 0;
        while i < evs.len()
            invariant
                i <= evs@.len(),
                parts@.len() == i,
                forall|j: int| 0 <= j < i ==> self.replaces(evs@[j], (#[trigger] parts@[j])@),
            decreases evs@.len() - i,
        {
            let part = self.replace_single(evs.get(i));
            parts.push(part);
            i += 1;
        }
        assert forall|j: int| 0 <= j < evs@.len() implies self.replaces(
            evs@[j],
            #[trigger] streams_view(parts@)[j],
        ) by {
            assert(self.replaces(evs@[j], parts@[j]@));
        }
        parts
    }

    /// Replaces each event, in place, by what takes its place, and removes
    /// duplicates at the end.
    pub fn process(&self, evs: &mut EventStream)
        ensures
            exists|parts: Seq<Seq<EventView>>| #[trigger]
                self.splices(old(evs)@, parts) && final(evs)@ == dedup_spec(joined(parts)),
    {
        let parts = self.replacements(evs);
        let mut out = join(&parts);
        out.dedup();
        evs.replace(out);
        assert(self.splices(old(evs)@, streams_view(parts@)) && evs@ == dedup_spec(
            joined(streams_view(parts@)),
        ));
    }
}

impl FilterChain {
    /// A composite of `filters`, connected as `connection` says.
    pub fn new(connection: ConnectionType, filters: Vec<Patch>) -> (c: Self)
        ensures
            c.connection == connection,
            c.filters == filters,
    {
        FilterChain { filters, connection }
    }

    /// Runs the children in series in `mode`.
    fn run_chain(&self, mode: RunMode, evs: &mut EventStream)
        ensures
            series_admits(self.filters@, mode, old(evs)@, final(evs)@),
        decreases self, 0nat,
    {
        let mut i: usize = 0;
        assert(self.filters@.take(0) =~= Seq::<Patch>::empty());
        while i < self.filters.len()
            invariant
                i <= self.filters.len(),
                series_admits(self.filters@.take(i as int), mode, old(evs)@, evs@),
            decreases self.filters.len() - i,
        {
            let ghost mid = evs@;
            proof {
                assert(self.filters@.take(i + 1).drop_last() =~= self.filters@.take(i as int));
            }
            self.filters[i].exec(mode, evs);
            assert(some_stream(mid) && series_admits(
                self.filters@.take(i as int),
                mode,
                old(evs)@,
                mid,
            ) && self.filters@.take(i + 1).last().admits(mode, mid, evs@));
            i += 1;
        }
        assert(self.filters@.take(i as int) =~= self.filters@);
    }

    /// Runs the children in parallel in `mode`.
    fn run_fork(&self, mode: RunMode, evs: &mut EventStream)
        ensures
            parallel_admits(self.filters@, mode, old(evs)@, final(evs)@),
        decreases self, 0nat,
    {
        let mut out = EventStream::empty();
        let mut i: usize = 0;
        assert(self.filters@.take(0) =~= Seq::<Patch>::empty());
        while i < self.filters.len()
            invariant
                i <= self.filters.len(),
                *evs == *old(evs),
                parallel_admits(self.filters@.take(i as int), mode, evs@, out@),
            decreases self.filters.len() - i,
        {
            let ghost front = out@;
            proof {
                assert(self.filters@.take(i + 1).drop_last() =~= self.filters@.take(i as int));
            }
            let mut copy = evs.clone();
            self.filters[i].exec(mode, &mut copy);
            let ghost back = copy@;
            out.extend(copy);
            assert(some_stream(front) && some_stream(back) && parallel_admits(
                self.filters@.take(i as int),
                mode,
                evs@,
                front,
            ) && self.filters@.take(i + 1).last().admits(mode, evs@, back) && out@ == front
                + back);
            i += 1;
        }
        assert(self.filters@.take(i as int) =~= self.filters@);
        evs.replace(out);
    }

    /// Runs the composite in `mode`.
    pub fn exec(&self, mode: RunMode, evs: &mut EventStream)
        ensures
            self.admits(mode, old(evs)@, final(evs)@),
            all_deterministic(self.filters@) ==> final(evs)@ == self.eval(mode, old(evs)@),
            (mode is Run || mode is Inverse) ==> final(evs)@.no_duplicates(),
        decreases self, 1nat,
    {
        match mode {
            RunMode::Run => {
                match self.connection {
                    ConnectionType::Chain => self.run_chain(mode, evs),
                    ConnectionType::Fork => self.run_fork(mode, evs),
                }
                let ghost all = evs@;
                proof {
                    lemma_dedup_properties(all);
                }
                evs.dedup();
                proof {
                    match self.connection {
                        ConnectionType::Chain => {
                            assert(some_stream(all) && series_admits(
                                self.filters@,
                                mode,
                                old(evs)@,
                                all,
                            ) && evs@ == dedup_spec(all));
                        },
                        ConnectionType::Fork => {
                            assert(some_stream(all) && parallel_admits(
                                self.filters@,
                                mode,
                                old(evs)@,
                                all,
                            ) && evs@ == dedup_spec(all));
                        },
                    }
                }
            },
            RunMode::Inverse => {
                match self.connection {
                    ConnectionType::Chain => self.run_fork(mode, evs),
                    ConnectionType::Fork => self.run_chain(mode, evs),
                }
                let ghost all = evs@;
                proof {
                    lemma_dedup_properties(all);
                }
                evs.dedup();
                proof {
                    match self.connection {
                        ConnectionType::Chain => {
                            assert(some_stream(all) && parallel_admits(
                                self.filters@,
                                mode,
                                old(evs)@,
                                all,
                            ) && evs@ == dedup_spec(all));
                        },
                        ConnectionType::Fork => {
                            assert(some_stream(all) && series_admits(
                                self.filters@,
                                mode,
                                old(evs)@,
                                all,
                            ) && evs@ == dedup_spec(all));
                        },
                    }
                }
            },
            _ => self.run_chain(mode, evs),
        }
        proof {
            if all_deterministic(self.filters@) {
                let node = Patch::Composite(*self);
                assert(node.is_deterministic());
                assert(node.admits(mode, old(evs)@, evs@) == self.admits(mode, old(evs)@, evs@));
                assert(node.eval(mode, old(evs)@) == self.eval(mode, old(evs)@));
                lemma_admits_deterministic(node, mode, old(evs)@, evs@);
            }
        }
    }
}

impl Patch {
    /// Runs the node in `mode`.
    ///
    /// What comes of the stream is something that the node can make of it;
    /// for a deterministic node that is what `eval` says.
    pub fn exec(&self, mode: RunMode, evs: &mut EventStream)
        ensures
            self.admits(mode, old(evs)@, final(evs)@),
            self.is_deterministic() ==> final(evs)@ == self.eval(mode, old(evs)@),
        decreases self, 2nat,
    {
        match self {
            Patch::Filter(f) => leaf_exec(f, mode, evs),
            Patch::Modifier(m) => leaf_exec(m, mode, evs),
            Patch::Generator(g) => leaf_exec(g, mode, evs),
            Patch::Pass(n) => leaf_exec(n, mode, evs),
            Patch::Discard(n) => leaf_exec(n, mode, evs),
            Patch::Quit(n) => leaf_exec(n, mode, evs),
            Patch::Print(n) => leaf_exec(n, mode, evs),
            Patch::Panic(n) => leaf_exec(n, mode, evs),
            Patch::SceneSwitch(n) => leaf_exec(n, mode, evs),
            Patch::OscStripPrefix(n) => leaf_exec(n, mode, evs),
            Patch::Composite(c) => c.exec(mode, evs),
            Patch::Not(n) => match mode {
                RunMode::Run => n.0.exec(RunMode::Inverse, evs),
                RunMode::Inverse => n.0.exec(RunMode::Run, evs),
                _ => {},
            },
            Patch::Init(n) => match mode {
                RunMode::Init => n.0.exec(RunMode::Run, evs),
                _ => {},
            },
            Patch::Exit(n) => match mode {
                RunMode::Exit => n.0.exec(RunMode::Run, evs),
                _ => {},
            },
            Patch::ProcessOsc(p) => match mode {
                RunMode::Run => p.process(evs),
                RunMode::Inverse => p.process(evs),
                _ => {},
            },
            Patch::Custom(b) => custom_exec(b, mode, evs),
        }
        proof {
            if self.is_deterministic() {
                lemma_admits_deterministic(*self, mode, old(evs)@, evs@);
            }
        }
    }
}

impl FilterTrait for FilterChain {
    open spec fn deterministic(&self) -> bool {
        all_deterministic(self.filters@)
    }

    open spec fn run_spec(&self, evs: Seq<EventView>) -> Seq<EventView> {
        self.eval(RunMode::Run, evs)
    }

    open spec fn run_inverse_spec(&self, evs: Seq<EventView>) -> Seq<EventView> {
        self.eval(RunMode::Inverse, evs)
    }

    open spec fn run_init_spec(&self, evs: Seq<EventView>) -> Seq<EventView> {
        self.eval(RunMode::Init, evs)
    }

    open spec fn run_exit_spec(&self, evs: Seq<EventView>) -> Seq<EventView> {
        self.eval(RunMode::Exit, evs)
    }

    fn run(&self, evs: &mut EventStream)
        ensures
            self.admits(RunMode::Run, old(evs)@, final(evs)@),
    {
        self.exec(RunMode::Run, evs);
    }

    fn run_inverse(&self, evs: &mut EventStream)
        ensures
            self.admits(RunMode::Inverse, old(evs)@, final(evs)@),
    {
        self.exec(RunMode::Inverse, evs);
    }

    fn run_init(&self, evs: &mut EventStream)
        ensures
            self.admits(RunMode::Init, old(evs)@, final(evs)@),
    {
        self.exec(RunMode::Init, evs);
    }

    fn run_exit(&self, evs: &mut EventStream)
        ensures
            self.admits(RunMode::Exit, old(evs)@, final(evs)@),
    {
        self.exec(RunMode::Exit, evs);
    }
}

impl FilterTrait for Patch {
    open spec fn deterministic(&self) -> bool {
        self.is_deterministic()
    }

    open spec fn run_spec(&self, evs: Seq<EventView>) -> Seq<EventView> {
        self.eval(RunMode::Run, evs)
    }

    open spec fn run_inverse_spec(&self, evs: Seq<EventView>) -> Seq<EventView> {
        self.eval(RunMode::Inverse, evs)
    }

    open spec fn run_init_spec(&self, evs: Seq<EventView>) -> Seq<EventView> {
        self.eval(RunMode::Init, evs)
    }

    open spec fn run_exit_spec(&self, evs: Seq<EventView>) -> Seq<EventView> {
        self.eval(RunMode::Exit, evs)
    }

    fn run(&self, evs: &mut EventStream)
        ensures
            self.admits(RunMode::Run, old(evs)@, final(evs)@),
    {
        self.exec(RunMode::Run, evs);
    }

    fn run_inverse(&self, evs: &mut EventStream)
        ensures
            self.admits(RunMode::Inverse, old(evs)@, final(evs)@),
    {
        self.exec(RunMode::Inverse, evs);
    }

    fn run_init(&self, evs: &mut EventStream)
        ensures
            self.admits(RunMode::Init, old(evs)@, final(evs)@),
    {
        self.exec(RunMode::Init, evs);
    }

    fn run_exit(&self, evs: &mut EventStream)
        ensures
            self.admits(RunMode::Exit, old(evs)@, final(evs)@),
    {
        self.exec(RunMode::Exit, evs);
    }
}

impl FilterTrait for _Not {
    open spec fn deterministic(&self) -> bool {
        self.0.is_deterministic()
    }

    open spec fn run_spec(&self, evs: Seq<EventView>) -> Seq<EventView> {
        self.0.eval(RunMode::Inverse, evs)
    }

    open spec fn run_inverse_spec(&self, evs: Seq<EventView>) -> Seq<EventView> {
        self.0.eval(RunMode::Run, evs)
    }

    open spec fn run_init_spec(&self, evs: Seq<EventView>) -> Seq<EventView> {
        evs
    }

    open spec fn run_exit_spec(&self, evs: Seq<EventView>) -> Seq<EventView> {
        evs
    }

    fn run(&self, evs: &mut EventStream)
        ensures
            self.0.admits(RunMode::Inverse, old(evs)@, final(evs)@),
    {
        self.0.exec(RunMode::Inverse, evs);
    }

    fn run_inverse(&self, evs: &mut EventStream)
        ensures
            self.0.admits(RunMode::Run, old(evs)@, final(evs)@),
    {
        self.0.exec(RunMode::Run, evs);
    }

    fn run_init(&self, evs: &mut EventStream)
        ensures
            final(evs)@ == old(evs)@,
    {
    }

    fn run_exit(&self, evs: &mut EventStream)
        ensures
            final(evs)@ == old(evs)@,
    {
    }
}

impl FilterTrait for _Init {
    open spec fn deterministic(&self) -> bool {
        self.0.is_deterministic()
    }

    open spec fn run_spec(&self, evs: Seq<EventView>) -> Seq<EventView> {
        evs
    }

    open spec fn run_inverse_spec(&self, evs: Seq<EventView>) -> Seq<EventView> {
        evs
    }

    open spec fn run_init_spec(&self, evs: Seq<EventView>) -> Seq<EventView> {
        self.0.eval(RunMode::Run, evs)
    }

    open spec fn run_exit_spec(&self, evs: Seq<EventView>) -> Seq<EventView> {
        evs
    }

    fn run(&self, evs: &mut EventStream)
        ensures
            final(evs)@ == old(evs)@,
    {
    }

    fn run_inverse(&self, evs: &mut EventStream)
        ensures
            final(evs)@ == old(evs)@,
    {
    }

    fn run_init(&self, evs: &mut EventStream)
        ensures
            self.0.admits(RunMode::Run, old(evs)@, final(evs)@),
    {
        self.0.exec(RunMode::Run, evs);
    }

    fn run_exit(&self, evs: &mut EventStream)
        ensures
            final(evs)@ == old(evs)@,
    {
    }
}

impl FilterTrait for _Exit {
    open spec fn deterministic(&self) -> bool {
        self.0.is_deterministic()
    }

    open spec fn run_spec(&self, evs: Seq<EventView>) -> Seq<EventView> {
        evs
    }

    open spec fn run_inverse_spec(&self, evs: Seq<EventView>) -> Seq<EventView> {
        evs
    }

    open spec fn run_init_spec(&self, evs: Seq<EventView>) -> Seq<EventView> {
        evs
    }

    open spec fn run_exit_spec(&self, evs: Seq<EventView>) -> Seq<EventView> {
        self.0.eval(RunMode::Run, evs)
    }

    fn run(&self, evs: &mut EventStream)
        ensures
            final(evs)@ == old(evs)@,
    {
    }

    fn run_inverse(&self, evs: &mut EventStream)
        ensures
            final(evs)@ == old(evs)@,
    {
    }

    fn run_init(&self, evs: &mut EventStream)
        ensures
            final(evs)@ == old(evs)@,
    {
    }

    fn run_exit(&self, evs: &mut EventStream)
        ensures
            self.0.admits(RunMode::Run, old(evs)@, final(evs)@),
    {
        self.0.exec(RunMode::Run, evs);
    }
}

impl FilterTrait for _ProcessOsc {
    open spec fn deterministic(&self) -> bool {
        false
    }

    open spec fn run_spec(&self, evs: Seq<EventView>) -> Seq<EventView> {
        evs
    }

    open spec fn run_inverse_spec(&self, evs: Seq<EventView>) -> Seq<EventView> {
        evs
    }

    open spec fn run_init_spec(&self, evs: Seq<EventView>) -> Seq<EventView> {
        evs
    }

    open spec fn run_exit_spec(&self, evs: Seq<EventView>) -> Seq<EventView> {
        evs
    }

    /// Replaces each message that the processor works on, in place, by
    /// what the patch of the user's function makes of it, leaves every other
    /// event in its place, and removes duplicates at the end.
    fn run(&self, evs: &mut EventStream)
        ensures
            exists|parts: Seq<Seq<EventView>>| #[trigger]
                self.splices(old(evs)@, parts) && final(evs)@ == dedup_spec(joined(parts)),
    {
        self.process(evs);
    }

    /// Under a negation the processor does what it does when run.
    fn run_inverse(&self, evs: &mut EventStream)
        ensures
            exists|parts: Seq<Seq<EventView>>| #[trigger]
                self.splices(old(evs)@, parts) && final(evs)@ == dedup_spec(joined(parts)),
    {
        self.process(evs);
    }

    fn run_init(&self, evs: &mut EventStream)
        ensures
            final(evs)@ == old(evs)@,
    {
    }

    fn run_exit(&self, evs: &mut EventStream)
        ensures
            final(evs)@ == old(evs)@,
    {
    }
}

impl From<Filter> for Patch {
    fn from(node: Filter) -> (p: Patch) {
        Patch::Filter(node)
    }
}

impl FromSpecImpl<Filter> for Patch {
    open spec fn obeys_from_spec() -> bool {
        true
    }

    open spec fn from_spec(node: Filter) -> Patch {
        Patch::Filter(node)
    }
}

impl From<Modifier> for Patch {
    fn from(node: Modifier) -> (p: Patch) {
        Patch::Modifier(node)
    }
}

impl FromSpecImpl<Modifier> for Patch {
    open spec fn obeys_from_spec() -> bool {
        true
    }

    open spec fn from_spec(node: Modifier) -> Patch {
        Patch::Modifier(node)
    }
}

impl From<Generator> for Patch {
    fn from(node: Generator) -> (p: Patch) {
        Patch::Generator(node)
    }
}

impl FromSpecImpl<Generator> for Patch {
    open spec fn obeys_from_spec() -> bool {
        true
    }

    open spec fn from_spec(node: Generator) -> Patch {
        Patch::Generator(node)
    }
}

impl From<Pass> for Patch {
    fn from(node: Pass) -> (p: Patch) {
        Patch::Pass(node)
    }
}

impl FromSpecImpl<Pass> for Patch {
    open spec fn obeys_from_spec() -> bool {
        true
    }

    open spec fn from_spec(node: Pass) -> Patch {
        Patch::Pass(node)
    }
}

impl From<Discard> for Patch {
    fn from(node: Discard) -> (p: Patch) {
        Patch::Discard(node)
    }
}

impl FromSpecImpl<Discard> for Patch {
    open spec fn obeys_from_spec() -> bool {
        true
    }

    open spec fn from_spec(node: Discard) -> Patch {
        Patch::Discard(node)
    }
}

impl From<Quit> for Patch {
    fn from(node: Quit) -> (p: Patch) {
        Patch::Quit(node)
    }
}

impl FromSpecImpl<Quit> for Patch {
    open spec fn obeys_from_spec() -> bool {
        true
    }

    open spec fn from_spec(node: Quit) -> Patch {
        Patch::Quit(node)
    }
}

impl From<Print> for Patch {
    fn from(node: Print) -> (p: Patch) {
        Patch::Print(node)
    }
}

impl FromSpecImpl<Print> for Patch {
    open spec fn obeys_from_spec() -> bool {
        true
    }

    open spec fn from_spec(node: Print) -> Patch {
        Patch::Print(node)
    }
}

impl From<Panic> for Patch {
    fn from(node: Panic) -> (p: Patch) {
        Patch::Panic(node)
    }
}

impl FromSpecImpl<Panic> for Patch {
    open spec fn obeys_from_spec() -> bool {
        true
    }

    open spec fn from_spec(node: Panic) -> Patch {
        Patch::Panic(node)
    }
}

impl From<SceneSwitch> for Patch {
    fn from(node: SceneSwitch) -> (p: Patch) {
        Patch::SceneSwitch(node)
    }
}

impl FromSpecImpl<SceneSwitch> for Patch {
    open spec fn obeys_from_spec() -> bool {
        true
    }

    open spec fn from_spec(node: SceneSwitch) -> Patch {
        Patch::SceneSwitch(node)
    }
}

impl From<OscStripPrefix> for Patch {
    fn from(node: OscStripPrefix) -> (p: Patch) {
        Patch::OscStripPrefix(node)
    }
}

impl FromSpecImpl<OscStripPrefix> for Patch {
    open spec fn obeys_from_spec() -> bool {
        true
    }

    open spec fn from_spec(node: OscStripPrefix) -> Patch {
        Patch::OscStripPrefix(node)
    }
}

impl From<FilterChain> for Patch {
    fn from(node: FilterChain) -> (p: Patch) {
        Patch::Composite(node)
    }
}

impl FromSpecImpl<FilterChain> for Patch {
    open spec fn obeys_from_spec() -> bool {
        true
    }

    open spec fn from_spec(node: FilterChain) -> Patch {
        Patch::Composite(node)
    }
}

impl From<_Not> for Patch {
    fn from(node: _Not) -> (p: Patch) {
        Patch::Not(node)
    }
}

impl FromSpecImpl<_Not> for Patch {
    open spec fn obeys_from_spec() -> bool {
        true
    }

    open spec fn from_spec(node: _Not) -> Patch {
        Patch::Not(node)
    }
}

impl From<_Init> for Patch {
    fn from(node: _Init) -> (p: Patch) {
        Patch::Init(node)
    }
}

impl FromSpecImpl<_Init> for Patch {
    open spec fn obeys_from_spec() -> bool {
        true
    }

    open spec fn from_spec(node: _Init) -> Patch {
        Patch::Init(node)
    }
}

impl From<_Exit> for Patch {
    fn from(node: _Exit) -> (p: Patch) {
        Patch::Exit(node)
    }
}

impl FromSpecImpl<_Exit> for Patch {
    open spec fn obeys_from_spec() -> bool {
        true
    }

    open spec fn from_spec(node: _Exit) -> Patch {
        Patch::Exit(node)
    }
}

impl From<_ProcessOsc> for Patch {
    fn from(node: _ProcessOsc) -> (p: Patch) {
        Patch::ProcessOsc(node)
    }
}

impl FromSpecImpl<_ProcessOsc> for Patch {
    open spec fn obeys_from_spec() -> bool {
        true
    }

    open spec fn from_spec(node: _ProcessOsc) -> Patch {
        Patch::ProcessOsc(node)
    }
}

impl From<Box<dyn CustomFilter>> for Patch {
    fn from(node: Box<dyn CustomFilter>) -> (p: Patch) {
        Patch::Custom(node)
    }
}

impl FromSpecImpl<Box<dyn CustomFilter>> for Patch {
    open spec fn obeys_from_spec() -> bool {
        true
    }

    open spec fn from_spec(node: Box<dyn CustomFilter>) -> Patch {
        Patch::Custom(node)
    }
}

/// The children `filters` in series.
#[allow(non_snake_case)]
pub fn Chain(filters: Vec<Patch>) -> (c: FilterChain)
    ensures
        c.connection == ConnectionType::Chain,
        c.filters == filters,
{
    FilterChain::new(ConnectionType::Chain, filters)
}

/// The children `filters` in parallel.
#[allow(non_snake_case)]
pub fn Fork(filters: Vec<Patch>) -> (c: FilterChain)
    ensures
        c.connection == ConnectionType::Fork,
        c.filters == filters,
{
    FilterChain::new(ConnectionType::Fork, filters)
}

/// The negation of `node`.
#[allow(non_snake_case)]
pub fn Not(node: Patch) -> (n: _Not)
    ensures
        *n.0 == node,
{
    _Not(Box::new(node))
}

/// `node`, to run when the scene or patch is entered.
#[allow(non_snake_case)]
pub fn Init(node: Patch) -> (n: _Init)
    ensures
        *n.0 == node,
{
    _Init(Box::new(node))
}

/// `node`, to run when the scene or patch is left.
#[allow(non_snake_case)]
pub fn Exit(node: Patch) -> (n: _Exit)
    ensures
        *n.0 == node,
{
    _Exit(Box::new(node))
}

/// An OSC processor for messages whose arguments have the kinds in `pattern`.
#[allow(non_snake_case)]
pub fn ProcessOsc(pattern: Vec<OscTypeTag>, f: Box<dyn OscFn>) -> (p: _ProcessOsc)
    ensures
        p == (_ProcessOsc { pattern, f }),
{
    _ProcessOsc { pattern, f }
}

/// Lets through the events of any of several families of kinds: a fork of
/// one type filter for each of `kinds`.
#[allow(non_snake_case)]
pub fn TypesFilter(kinds: Vec<EventType>) -> (c: FilterChain)
    ensures
        c.connection == ConnectionType::Fork,
        c.filters@.len() == kinds@.len(),
        forall|i: int|
            0 <= i < kinds@.len() ==> c.filters@[i] == Patch::Filter(Filter::Type(kinds@[i])),
{
    let mut filters: Vec<Patch> = Vec::new();
    let mut i: usize = 0;
    while i < kinds.len()
        invariant
            i <= kinds.len(),
            filters@.len() == i,
            forall|j: int| 0 <= j < i ==> filters@[j] == Patch::Filter(Filter::Type(kinds@[j])),
        decreases kinds.len() - i,
    {
        filters.push(Patch::Filter(Filter::Type(kinds[i])));
        i += 1;
    }
    FilterChain::new(ConnectionType::Fork, filters)
}

} // verus!
