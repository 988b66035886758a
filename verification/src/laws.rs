//! What holds of every patch: the laws of filters, of negation, of the two
//! ways to connect nodes, and of the nodes that work on OSC addresses.
use crate::event::{CtrlEventImpl, EventView};
use crate::event_stream::{
    dedup_spec, is_subsequence, lemma_dedup_of_distinct, lemma_dedup_properties,
};
use crate::filter_trait::FilterTrait;
use crate::filters::{select, Filter};
use crate::modifiers::Modifier;
use crate::nodes::{Discard, Panic, Pass, ALL_NOTES_OFF, SUSTAIN};
use crate::osc::OscStripPrefix;
use crate::patch::{
    all_deterministic, joined, osc_args_of, parallel_admits, parallel_eval, series_admits,
    series_eval, some_stream, ConnectionType, FilterChain, OscPatch, Patch, RunMode, _Not,
    _ProcessOsc,
};
use crate::event::SceneNum;
use crate::runner::{to_backend, to_user, RunnerView};
use vstd::prelude::*;

verus! {

/// What a selection keeps is a subsequence of what it selects from.
pub proof fn lemma_select_is_subsequence(
    s: Seq<EventView>,
    accepts: spec_fn(EventView) -> bool,
    want: bool,
)
    ensures
        is_subsequence(select(s, accepts, want), s),
    decreases s.len(),
{
    if s.len() > 0 {
        lemma_select_is_subsequence(s.drop_last(), accepts, want);
        let before = select(s.drop_last(), accepts, want);
        if accepts(s.last()) == want {
            assert(before.push(s.last()).drop_last() =~= before);
        }
    }
}

/// Of every event, a selection and the opposite selection keep it in
/// exactly one of the two: together they hold as many events as there were.
pub proof fn lemma_select_partitions(s: Seq<EventView>, accepts: spec_fn(EventView) -> bool)
    ensures
        select(s, accepts, true).len() + select(s, accepts, false).len() == s.len(),
    decreases s.len(),
{
    if s.len() > 0 {
        lemma_select_partitions(s.drop_last(), accepts);
    }
}

/// What a selection makes of a single event: the event, or nothing.
pub proof fn lemma_select_single(e: EventView, accepts: spec_fn(EventView) -> bool, want: bool)
    ensures
        select(seq![e], accepts, want) == if accepts(e) == want {
            seq![e]
        } else {
            Seq::<EventView>::empty()
        },
{
    let s = seq![e];
    assert(s.drop_last() =~= Seq::<EventView>::empty());
    assert(select(s.drop_last(), accepts, want) =~= Seq::<EventView>::empty());
    assert(Seq::<EventView>::empty().push(e) =~= s);
}

/// A filter never makes events: what it leaves of a stream, and what it
/// leaves under a negation, is a subsequence of the stream.
pub proof fn filter_leaves_subsequence(f: Filter, s: Seq<EventView>)
    ensures
        is_subsequence(f.run_spec(s), s),
        is_subsequence(f.run_inverse_spec(s), s),
{
    lemma_select_is_subsequence(s, |e: EventView| f.accepts(e), true);
    lemma_select_is_subsequence(s, |e: EventView| f.accepts(e), false);
}

/// Of a single event, a filter under a negation leaves exactly what the
/// filter itself drops.
pub proof fn filter_inverse_is_complement(f: Filter, e: EventView)
    ensures
        f.run_spec(seq![e]) == if f.accepts(e) {
            seq![e]
        } else {
            Seq::<EventView>::empty()
        },
        f.run_inverse_spec(seq![e]) == if f.accepts(e) {
            Seq::<EventView>::empty()
        } else {
            seq![e]
        },
{
    lemma_select_single(e, |e: EventView| f.accepts(e), true);
    lemma_select_single(e, |e: EventView| f.accepts(e), false);
}

/// Of any stream, a filter and its negation leave, between them, each event once.
pub proof fn filter_and_inverse_partition(f: Filter, s: Seq<EventView>)
    ensures
        f.run_spec(s).len() + f.run_inverse_spec(s).len() == s.len(),
{
    lemma_select_partitions(s, |e: EventView| f.accepts(e));
}

/// Whether all of `fs` are built from filters only.
pub open spec fn all_filters_only(fs: Seq<Patch>) -> bool
    decreases fs, 0nat,
{
    if fs.len() == 0 {
        true
    } else {
        all_filters_only(fs.drop_last()) && filters_only(fs.last())
    }
}

/// Whether `g` is built from filters only: from filters, the nodes that
/// let all or nothing through, composites of such, and negations of such.
pub open spec fn filters_only(g: Patch) -> bool
    decreases g, 1nat,
{
    match g {
        Patch::Filter(_) => true,
        Patch::Pass(_) => true,
        Patch::Discard(_) => true,
        Patch::Composite(c) => all_filters_only(c.filters@),
        Patch::Not(n) => filters_only(*n.0),
        _ => false,
    }
}

/// Nodes built from filters only are deterministic.
pub proof fn lemma_all_filters_only_deterministic(fs: Seq<Patch>)
    requires
        all_filters_only(fs),
    ensures
        all_deterministic(fs),
    decreases fs, 0nat,
{
    if fs.len() > 0 {
        lemma_all_filters_only_deterministic(fs.drop_last());
        filters_only_is_deterministic(fs.last());
    }
}

/// A node built from filters only is deterministic: what it does when
/// run is what `eval` says.
pub proof fn filters_only_is_deterministic(g: Patch)
    requires
        filters_only(g),
    ensures
        g.is_deterministic(),
    decreases g, 1nat,
{
    match g {
        Patch::Composite(c) => {
            lemma_all_filters_only_deterministic(c.filters@);
        },
        Patch::Not(n) => {
            filters_only_is_deterministic(*n.0);
        },
        _ => {},
    }
}

/// The negation of `g`.
pub open spec fn negated(g: Patch) -> Patch {
    Patch::Not(_Not(Box::new(g)))
}

/// Nodes built from filters only leave the stream alone when a scene is
/// entered or left.
pub proof fn lemma_filters_only_series(fs: Seq<Patch>, mode: RunMode, s: Seq<EventView>)
    requires
        all_filters_only(fs),
        mode is Init || mode is Exit,
    ensures
        series_eval(fs, mode, s) == s,
    decreases fs, 0nat,
{
    if fs.len() > 0 {
        lemma_filters_only_series(fs.drop_last(), mode, s);
        lemma_filters_only_hooks(fs.last(), mode, s);
    }
}

/// A node built from filters only leaves the stream alone when a scene is
/// entered or left.
pub proof fn lemma_filters_only_hooks(g: Patch, mode: RunMode, s: Seq<EventView>)
    requires
        filters_only(g),
        mode is Init || mode is Exit,
    ensures
        g.eval(mode, s) == s,
    decreases g, 1nat,
{
    match g {
        Patch::Composite(c) => {
            lemma_filters_only_series(c.filters@, mode, s);
            assert(c.eval(mode, s) == series_eval(c.filters@, mode, s));
        },
        Patch::Not(n) => {
            assert(g.eval(mode, s) == s);
        },
        _ => {},
    }
}

/// The negation of the negation of a node does, when run and when run
/// under a further negation, what the node does.
pub proof fn double_negation(g: Patch, s: Seq<EventView>)
    ensures
        negated(negated(g)).eval(RunMode::Run, s) == g.eval(RunMode::Run, s),
        negated(negated(g)).eval(RunMode::Inverse, s) == g.eval(RunMode::Inverse, s),
{
    reveal_with_fuel(Patch::eval, 3);
}

/// The negation of the negation of a node built from filters only does
/// what the node does, however it is run.
pub proof fn double_negation_of_filters(g: Patch, mode: RunMode, s: Seq<EventView>)
    requires
        filters_only(g),
    ensures
        negated(negated(g)).eval(mode, s) == g.eval(mode, s),
{
    reveal_with_fuel(Patch::eval, 3);
    if mode is Init || mode is Exit {
        lemma_filters_only_hooks(g, mode, s);
    }
}

/// Whether every event of `a` is an event of `b`.
pub open spec fn within(a: Seq<EventView>, b: Seq<EventView>) -> bool {
    forall|e: EventView| a.contains(e) ==> b.contains(e)
}

/// Every event that a selection keeps is an event of what it selects from.
pub proof fn lemma_select_within(s: Seq<EventView>, accepts: spec_fn(EventView) -> bool, want: bool)
    ensures
        within(select(s, accepts, want), s),
    decreases s.len(),
{
    if s.len() > 0 {
        lemma_select_within(s.drop_last(), accepts, want);
        let before = select(s.drop_last(), accepts, want);
        assert forall|e: EventView| select(s, accepts, want).contains(e) implies s.contains(e) by {
            let kept = select(s, accepts, want);
            let i = choose|i: int| 0 <= i < kept.len() && kept[i] == e;
            if i < before.len() {
                assert(before[i] == e);
                assert(before.contains(e));
                let j = choose|j: int| 0 <= j < s.drop_last().len() && s.drop_last()[j] == e;
                assert(s[j] == e);
            } else {
                assert(s[s.len() - 1] == e);
            }
        }
    }
}

/// Every event of two streams put together is an event of one of them.
pub proof fn lemma_within_concat(a: Seq<EventView>, b: Seq<EventView>, s: Seq<EventView>)
    requires
        within(a, s),
        within(b, s),
    ensures
        within(a + b, s),
{
    assert forall|e: EventView| (a + b).contains(e) implies s.contains(e) by {
        let i = choose|i: int| 0 <= i < (a + b).len() && (a + b)[i] == e;
        if i < a.len() {
            assert(a[i] == e);
            assert(a.contains(e));
        } else {
            assert(b[i - a.len()] == e);
            assert(b.contains(e));
        }
    }
}

/// Nodes built from filters only, run in series, make no event of their own.
pub proof fn lemma_filters_only_series_within(fs: Seq<Patch>, mode: RunMode, s: Seq<EventView>)
    requires
        all_filters_only(fs),
    ensures
        within(series_eval(fs, mode, s), s),
    decreases fs, 0nat,
{
    if fs.len() > 0 {
        let t = series_eval(fs.drop_last(), mode, s);
        lemma_filters_only_series_within(fs.drop_last(), mode, s);
        filters_never_make_events(fs.last(), mode, t);
    }
}

/// Nodes built from filters only, run in parallel, make no event of their own.
pub proof fn lemma_filters_only_parallel_within(fs: Seq<Patch>, mode: RunMode, s: Seq<EventView>)
    requires
        all_filters_only(fs),
    ensures
        within(parallel_eval(fs, mode, s), s),
    decreases fs, 0nat,
{
    if fs.len() > 0 {
        lemma_filters_only_parallel_within(fs.drop_last(), mode, s);
        filters_never_make_events(fs.last(), mode, s);
        lemma_within_concat(parallel_eval(fs.drop_last(), mode, s), fs.last().eval(mode, s), s);
    }
}

/// A node built from filters only never makes an event of its own: however
/// it is run, every event that it leaves is an event of the stream that it
/// was given.
pub proof fn filters_never_make_events(g: Patch, mode: RunMode, s: Seq<EventView>)
    requires
        filters_only(g),
    ensures
        within(g.eval(mode, s), s),
    decreases g, 1nat,
{
    if mode is Init || mode is Exit {
        lemma_filters_only_hooks(g, mode, s);
    } else {
        match g {
            Patch::Filter(f) => {
                lemma_select_within(s, |e: EventView| f.accepts(e), true);
                lemma_select_within(s, |e: EventView| f.accepts(e), false);
            },
            Patch::Composite(c) => {
                lemma_filters_only_series_within(c.filters@, mode, s);
                lemma_filters_only_parallel_within(c.filters@, mode, s);
                lemma_dedup_properties(series_eval(c.filters@, mode, s));
                lemma_dedup_properties(parallel_eval(c.filters@, mode, s));
                assert(c.eval(mode, s) == g.eval(mode, s));
            },
            Patch::Not(n) => {
                if mode is Run {
                    filters_never_make_events(*n.0, RunMode::Inverse, s);
                } else {
                    filters_never_make_events(*n.0, RunMode::Run, s);
                }
            },
            _ => {},
        }
    }
}

/// The negation of a node does, when run, what the node does under a negation.
pub proof fn lemma_negated_runs_inverse(g: Patch, s: Seq<EventView>)
    ensures
        negated(g).eval(RunMode::Run, s) == g.eval(RunMode::Inverse, s),
        negated(g).eval(RunMode::Inverse, s) == g.eval(RunMode::Run, s),
{
    reveal_with_fuel(Patch::eval, 2);
}

/// Whether each of `negations` is the negation of the node at the same
/// place in `nodes`.
pub open spec fn are_negations(negations: Seq<Patch>, nodes: Seq<Patch>) -> bool {
    &&& negations.len() == nodes.len()
    &&& forall|i: int| 0 <= i < nodes.len() ==> #[trigger] negations[i] == negated(nodes[i])
}

/// Negations run in parallel do what the nodes do in parallel under a negation.
pub proof fn lemma_parallel_of_negations(
    negations: Seq<Patch>,
    nodes: Seq<Patch>,
    s: Seq<EventView>,
)
    requires
        are_negations(negations, nodes),
    ensures
        parallel_eval(negations, RunMode::Run, s) == parallel_eval(nodes, RunMode::Inverse, s),
    decreases nodes.len(),
{
    if nodes.len() > 0 {
        assert(are_negations(negations.drop_last(), nodes.drop_last())) by {
            assert forall|i: int| 0 <= i < nodes.drop_last().len() implies #[trigger]
                negations.drop_last()[i] == negated(nodes.drop_last()[i]) by {
                assert(negations[i] == negated(nodes[i]));
            }
        }
        lemma_parallel_of_negations(negations.drop_last(), nodes.drop_last(), s);
        assert(negations.last() == negated(nodes.last())) by {
            assert(negations[nodes.len() - 1] == negated(nodes[nodes.len() - 1]));
        }
        lemma_negated_runs_inverse(nodes.last(), s);
        assert(parallel_eval(negations, RunMode::Run, s) == parallel_eval(
            negations.drop_last(),
            RunMode::Run,
            s,
        ) + negations.last().eval(RunMode::Run, s));
    }
}

/// Negations run in series do what the nodes do in series under a negation.
pub proof fn lemma_series_of_negations(
    negations: Seq<Patch>,
    nodes: Seq<Patch>,
    s: Seq<EventView>,
)
    requires
        are_negations(negations, nodes),
    ensures
        series_eval(negations, RunMode::Run, s) == series_eval(nodes, RunMode::Inverse, s),
    decreases nodes.len(),
{
    if nodes.len() > 0 {
        assert(are_negations(negations.drop_last(), nodes.drop_last())) by {
            assert forall|i: int| 0 <= i < nodes.drop_last().len() implies #[trigger]
                negations.drop_last()[i] == negated(nodes.drop_last()[i]) by {
                assert(negations[i] == negated(nodes[i]));
            }
        }
        lemma_series_of_negations(negations.drop_last(), nodes.drop_last(), s);
        assert(negations.last() == negated(nodes.last())) by {
            assert(negations[nodes.len() - 1] == negated(nodes[nodes.len() - 1]));
        }
        let t = series_eval(nodes.drop_last(), RunMode::Inverse, s);
        lemma_negated_runs_inverse(nodes.last(), t);
        assert(series_eval(negations, RunMode::Run, s) == negations.last().eval(
            RunMode::Run,
            series_eval(negations.drop_last(), RunMode::Run, s),
        ));
    }
}

/// A chain under a negation does what the fork of the negations of its
/// children does.
pub proof fn negated_chain_is_fork_of_negations(
    chain: FilterChain,
    fork: FilterChain,
    s: Seq<EventView>,
)
    requires
        chain.connection == ConnectionType::Chain,
        fork.connection == ConnectionType::Fork,
        are_negations(fork.filters@, chain.filters@),
    ensures
        chain.run_inverse_spec(s) == fork.run_spec(s),
        negated(Patch::Composite(chain)).eval(RunMode::Run, s) == Patch::Composite(fork).eval(
            RunMode::Run,
            s,
        ),
{
    lemma_parallel_of_negations(fork.filters@, chain.filters@, s);
    lemma_negated_runs_inverse(Patch::Composite(chain), s);
    assert(Patch::Composite(chain).eval(RunMode::Inverse, s) == chain.eval(RunMode::Inverse, s));
    assert(Patch::Composite(fork).eval(RunMode::Run, s) == fork.eval(RunMode::Run, s));
}

/// A fork under a negation does what the chain of the negations of its
/// children does.
pub proof fn negated_fork_is_chain_of_negations(
    fork: FilterChain,
    chain: FilterChain,
    s: Seq<EventView>,
)
    requires
        fork.connection == ConnectionType::Fork,
        chain.connection == ConnectionType::Chain,
        are_negations(chain.filters@, fork.filters@),
    ensures
        fork.run_inverse_spec(s) == chain.run_spec(s),
        negated(Patch::Composite(fork)).eval(RunMode::Run, s) == Patch::Composite(chain).eval(
            RunMode::Run,
            s,
        ),
{
    lemma_series_of_negations(chain.filters@, fork.filters@, s);
    lemma_negated_runs_inverse(Patch::Composite(fork), s);
    assert(Patch::Composite(fork).eval(RunMode::Inverse, s) == fork.eval(RunMode::Inverse, s));
    assert(Patch::Composite(chain).eval(RunMode::Run, s) == chain.eval(RunMode::Run, s));
}

/// The negation of a node can make, when run, what the node can make
/// under a negation, whether or not the node holds code of the user.
pub proof fn lemma_negated_admits(g: Patch, pre: Seq<EventView>, post: Seq<EventView>)
    ensures
        negated(g).admits(RunMode::Run, pre, post) == g.admits(RunMode::Inverse, pre, post),
        negated(g).admits(RunMode::Inverse, pre, post) == g.admits(RunMode::Run, pre, post),
{
    reveal_with_fuel(Patch::admits, 2);
}

/// The negation of the negation of a node can make, when run and when run
/// under a further negation, exactly what the node can make, whether or not
/// the node holds code of the user.
pub proof fn double_negation_admits(g: Patch, pre: Seq<EventView>, post: Seq<EventView>)
    ensures
        negated(negated(g)).admits(RunMode::Run, pre, post) == g.admits(RunMode::Run, pre, post),
        negated(negated(g)).admits(RunMode::Inverse, pre, post) == g.admits(
            RunMode::Inverse,
            pre,
            post,
        ),
{
    lemma_negated_admits(negated(g), pre, post);
    lemma_negated_admits(g, pre, post);
}

/// Negations run in parallel can make what the nodes can make in parallel
/// under a negation.
pub proof fn lemma_parallel_admits_of_negations(
    negations: Seq<Patch>,
    nodes: Seq<Patch>,
    pre: Seq<EventView>,
    post: Seq<EventView>,
)
    requires
        are_negations(negations, nodes),
    ensures
        parallel_admits(negations, RunMode::Run, pre, post) == parallel_admits(
            nodes,
            RunMode::Inverse,
            pre,
            post,
        ),
    decreases nodes.len(),
{
    if nodes.len() > 0 {
        assert(are_negations(negations.drop_last(), nodes.drop_last())) by {
            assert forall|i: int| 0 <= i < nodes.drop_last().len() implies #[trigger]
                negations.drop_last()[i] == negated(nodes.drop_last()[i]) by {
                assert(negations[i] == negated(nodes[i]));
            }
        }
        assert(negations.last() == negated(nodes.last())) by {
            assert(negations[nodes.len() - 1] == negated(nodes[nodes.len() - 1]));
        }
        if parallel_admits(negations, RunMode::Run, pre, post) {
            let (front, back) = choose|front: Seq<EventView>, back: Seq<EventView>|
                #![trigger some_stream(front), some_stream(back)]
                some_stream(front) && some_stream(back) && parallel_admits(
                    negations.drop_last(),
                    RunMode::Run,
                    pre,
                    front,
                ) && negations.last().admits(RunMode::Run, pre, back) && post == front + back;
            lemma_parallel_admits_of_negations(
                negations.drop_last(),
                nodes.drop_last(),
                pre,
                front,
            );
            lemma_negated_admits(nodes.last(), pre, back);
            assert(some_stream(front) && some_stream(back) && parallel_admits(
                nodes.drop_last(),
                RunMode::Inverse,
                pre,
                front,
            ) && nodes.last().admits(RunMode::Inverse, pre, back) && post == front + back);
        }
        if parallel_admits(nodes, RunMode::Inverse, pre, post) {
            let (front, back) = choose|front: Seq<EventView>, back: Seq<EventView>|
                #![trigger some_stream(front), some_stream(back)]
                some_stream(front) && some_stream(back) && parallel_admits(
                    nodes.drop_last(),
                    RunMode::Inverse,
                    pre,
                    front,
                ) && nodes.last().admits(RunMode::Inverse, pre, back) && post == front + back;
            lemma_parallel_admits_of_negations(
                negations.drop_last(),
                nodes.drop_last(),
                pre,
                front,
            );
            lemma_negated_admits(nodes.last(), pre, back);
            assert(some_stream(front) && some_stream(back) && parallel_admits(
                negations.drop_last(),
                RunMode::Run,
                pre,
                front,
            ) && negations.last().admits(RunMode::Run, pre, back) && post == front + back);
        }
    }
}

/// Negations run in series can make what the nodes can make in series
/// under a negation.
pub proof fn lemma_series_admits_of_negations(
    negations: Seq<Patch>,
    nodes: Seq<Patch>,
    pre: Seq<EventView>,
    post: Seq<EventView>,
)
    requires
        are_negations(negations, nodes),
    ensures
        series_admits(negations, RunMode::Run, pre, post) == series_admits(
            nodes,
            RunMode::Inverse,
            pre,
            post,
        ),
    decreases nodes.len(),
{
    if nodes.len() > 0 {
        assert(are_negations(negations.drop_last(), nodes.drop_last())) by {
            assert forall|i: int| 0 <= i < nodes.drop_last().len() implies #[trigger]
                negations.drop_last()[i] == negated(nodes.drop_last()[i]) by {
                assert(negations[i] == negated(nodes[i]));
            }
        }
        assert(negations.last() == negated(nodes.last())) by {
            assert(negations[nodes.len() - 1] == negated(nodes[nodes.len() - 1]));
        }
        if series_admits(negations, RunMode::Run, pre, post) {
            let mid = choose|mid: Seq<EventView>| #[trigger]
                some_stream(mid) && series_admits(negations.drop_last(), RunMode::Run, pre, mid)
                    && negations.last().admits(RunMode::Run, mid, post);
            lemma_series_admits_of_negations(negations.drop_last(), nodes.drop_last(), pre, mid);
            lemma_negated_admits(nodes.last(), mid, post);
            assert(some_stream(mid) && series_admits(
                nodes.drop_last(),
                RunMode::Inverse,
                pre,
                mid,
            ) && nodes.last().admits(RunMode::Inverse, mid, post));
        }
        if series_admits(nodes, RunMode::Inverse, pre, post) {
            let mid = choose|mid: Seq<EventView>| #[trigger]
                some_stream(mid) && series_admits(nodes.drop_last(), RunMode::Inverse, pre, mid)
                    && nodes.last().admits(RunMode::Inverse, mid, post);
            lemma_series_admits_of_negations(negations.drop_last(), nodes.drop_last(), pre, mid);
            lemma_negated_admits(nodes.last(), mid, post);
            assert(some_stream(mid) && series_admits(
                negations.drop_last(),
                RunMode::Run,
                pre,
                mid,
            ) && negations.last().admits(RunMode::Run, mid, post));
        }
    }
}

/// A chain under a negation can make exactly what the fork of the negations
/// of its children can make, whether or not they hold code of the user.
pub proof fn negated_chain_admits_as_fork_of_negations(
    chain: FilterChain,
    fork: FilterChain,
    pre: Seq<EventView>,
    post: Seq<EventView>,
)
    requires
        chain.connection == ConnectionType::Chain,
        fork.connection == ConnectionType::Fork,
        are_negations(fork.filters@, chain.filters@),
    ensures
        negated(Patch::Composite(chain)).admits(RunMode::Run, pre, post) == Patch::Composite(
            fork,
        ).admits(RunMode::Run, pre, post),
{
    lemma_negated_admits(Patch::Composite(chain), pre, post);
    assert(Patch::Composite(chain).admits(RunMode::Inverse, pre, post) == chain.admits(
        RunMode::Inverse,
        pre,
        post,
    ));
    assert(Patch::Composite(fork).admits(RunMode::Run, pre, post) == fork.admits(
        RunMode::Run,
        pre,
        post,
    ));
    assert forall|all: Seq<EventView>| #[trigger]
        some_stream(all) implies parallel_admits(fork.filters@, RunMode::Run, pre, all)
        == parallel_admits(chain.filters@, RunMode::Inverse, pre, all) by {
        lemma_parallel_admits_of_negations(fork.filters@, chain.filters@, pre, all);
    }
}

/// A fork under a negation can make exactly what the chain of the negations
/// of its children can make, whether or not they hold code of the user.
pub proof fn negated_fork_admits_as_chain_of_negations(
    fork: FilterChain,
    chain: FilterChain,
    pre: Seq<EventView>,
    post: Seq<EventView>,
)
    requires
        fork.connection == ConnectionType::Fork,
        chain.connection == ConnectionType::Chain,
        are_negations(chain.filters@, fork.filters@),
    ensures
        negated(Patch::Composite(fork)).admits(RunMode::Run, pre, post) == Patch::Composite(
            chain,
        ).admits(RunMode::Run, pre, post),
{
    lemma_negated_admits(Patch::Composite(fork), pre, post);
    assert(Patch::Composite(fork).admits(RunMode::Inverse, pre, post) == fork.admits(
        RunMode::Inverse,
        pre,
        post,
    ));
    assert(Patch::Composite(chain).admits(RunMode::Run, pre, post) == chain.admits(
        RunMode::Run,
        pre,
        post,
    ));
    assert forall|all: Seq<EventView>| #[trigger]
        some_stream(all) implies series_admits(chain.filters@, RunMode::Run, pre, all)
        == series_admits(fork.filters@, RunMode::Inverse, pre, all) by {
        lemma_series_admits_of_negations(chain.filters@, fork.filters@, pre, all);
    }
}

/// What a composite leaves, run or run under a negation, holds no event twice.
pub proof fn composite_leaves_no_duplicates(c: FilterChain, s: Seq<EventView>)
    ensures
        c.run_spec(s).no_duplicates(),
        c.run_inverse_spec(s).no_duplicates(),
{
    lemma_dedup_properties(series_eval(c.filters@, RunMode::Run, s));
    lemma_dedup_properties(parallel_eval(c.filters@, RunMode::Run, s));
    lemma_dedup_properties(series_eval(c.filters@, RunMode::Inverse, s));
    lemma_dedup_properties(parallel_eval(c.filters@, RunMode::Inverse, s));
}

/// A MIDI panic adds exactly 32 events to the stream: for each of the 16
/// channels one "all notes off" and one "sustain off", each with value 0
/// on port 0.
pub proof fn panic_adds_32_events(s: Seq<EventView>)
    ensures
        Panic().run_spec(s).len() == s.len() + 32,
        Panic().run_spec(s).take(s.len() as int) == s,
        forall|c: u8|
            c < 16 ==> #[trigger] Panic().run_spec(s)[s.len() + c] == EventView::Ctrl(
                CtrlEventImpl { port: 0, channel: c, ctrl: ALL_NOTES_OFF, value: 0 },
            ),
        forall|c: u8|
            c < 16 ==> #[trigger] Panic().run_spec(s)[s.len() + 16 + c] == EventView::Ctrl(
                CtrlEventImpl { port: 0, channel: c, ctrl: SUSTAIN, value: 0 },
            ),
{
    assert(Panic().run_spec(s).take(s.len() as int) =~= s);
}

/// To put a prefix in front of the address of every OSC message and then
/// to take it off again leaves every stream as it was.
pub proof fn add_then_strip_prefix(prefix: String, s: Seq<EventView>)
    ensures
        OscStripPrefix(prefix).run_spec(Modifier::OscAddPrefix(prefix).run_spec(s)) == s,
    decreases s.len(),
{
    let add = Modifier::OscAddPrefix(prefix);
    let strip = OscStripPrefix(prefix);
    let added = add.run_spec(s);
    if s.len() == 0 {
        assert(added =~= Seq::<EventView>::empty());
        assert(strip.stripped(added) =~= s);
    } else {
        add_then_strip_prefix(prefix, s.drop_last());
        assert(added.drop_last() =~= add.run_spec(s.drop_last()));
        let e = s.last();
        assert(added.last() == add.apply(e));
        match e {
            EventView::Osc { port, addr, args } => {
                assert(prefix@.is_prefix_of(prefix@ + addr)) by {
                    assert((prefix@ + addr).subrange(0, prefix@.len() as int) =~= prefix@);
                }
                assert((prefix@ + addr).skip(prefix@.len() as int) =~= addr);
            },
            _ => {},
        }
        assert(strip.accepts(add.apply(e)));
        assert(strip.strip(add.apply(e)) == e);
        assert(s.drop_last().push(e) =~= s);
    }
}

/// Of a message alone that it works on, an OSC processor makes what the
/// patch of the user's function makes of that message alone, without what
/// occurs twice: where the function can return, for the arguments of the
/// message, only patches without code of the user that make `made` of it,
/// the processor can make nothing but `made` without what occurs twice.
pub proof fn processor_runs_the_patch_of_the_function(
    p: _ProcessOsc,
    e: EventView,
    made: Seq<EventView>,
    post: Seq<EventView>,
)
    requires
        p.handles(e),
        forall|q: OscPatch| #[trigger]
            p.f.can_return(osc_args_of(e), q) ==> q.0.deterministic() && q.0.run_spec(seq![e])
                == made,
        Patch::ProcessOsc(p).admits(RunMode::Run, seq![e], post),
    ensures
        post == dedup_spec(made),
{
    let parts = choose|parts: Seq<Seq<EventView>>| #[trigger]
        p.splices(seq![e], parts) && post == dedup_spec(joined(parts));
    assert(p.replaces(seq![e][0], parts[0]));
    assert(parts.drop_last() =~= Seq::<Seq<EventView>>::empty());
    assert(joined(parts.drop_last()) =~= Seq::<EventView>::empty());
    assert(joined(parts) =~= parts[0]);
}

/// Of an event alone that it does not work on, an OSC processor makes that
/// event alone, whatever the user's function is.
pub proof fn processor_leaves_other_events(p: _ProcessOsc, e: EventView, post: Seq<EventView>)
    requires
        !p.handles(e),
        Patch::ProcessOsc(p).admits(RunMode::Run, seq![e], post),
    ensures
        post == seq![e],
{
    let parts = choose|parts: Seq<Seq<EventView>>| #[trigger]
        p.splices(seq![e], parts) && post == dedup_spec(joined(parts));
    assert(p.replaces(seq![e][0], parts[0]));
    assert(parts.drop_last() =~= Seq::<Seq<EventView>>::empty());
    assert(joined(parts.drop_last()) =~= Seq::<EventView>::empty());
    assert(joined(parts) =~= seq![e]);
    lemma_dedup_of_distinct(seq![e]);
}

/// A node that lets everything through and one that lets nothing through
/// are each the negation of the other.
pub proof fn pass_and_discard_are_negations(s: Seq<EventView>)
    ensures
        negated(Patch::Pass(Pass())).eval(RunMode::Run, s) == Patch::Discard(Discard()).eval(
            RunMode::Run,
            s,
        ),
        negated(Patch::Discard(Discard())).eval(RunMode::Run, s) == Patch::Pass(Pass()).eval(
            RunMode::Run,
            s,
        ),
{
    reveal_with_fuel(Patch::eval, 2);
}

/// An event that comes in and goes out again unchanged by any patch has the
/// port and channel that it came with, unless adding the offsets ran into
/// the limit of the numbers.
pub proof fn offsets_cancel(e: EventView, port_offset: u8, channel_offset: u8)
    requires
        e.port() matches Some(p) ==> p + port_offset <= usize::MAX,
        e.channel() matches Some(c) ==> c + channel_offset <= u8::MAX,
    ensures
        to_backend(to_user(e, port_offset, channel_offset), port_offset, channel_offset) == e,
{
}

/// A switch of sub-scene keeps a runner well formed and leaves its setup alone.
pub proof fn switch_subscene_keeps_wf(r: RunnerView, k: SceneNum)
    requires
        r.wf(),
    ensures
        r.switch_subscene(k).0.wf(),
        r.same_setup(r.switch_subscene(k).0),
{
}

/// A switch of scene keeps a runner well formed and leaves its setup alone.
pub proof fn switch_scene_keeps_wf(r: RunnerView, n: SceneNum, sub: Option<SceneNum>)
    requires
        r.wf(),
    ensures
        r.switch_scene(n, sub).0.wf(),
        r.same_setup(r.switch_scene(n, sub).0),
{
}

/// The start keeps a runner well formed and leaves its setup alone.
pub proof fn start_keeps_wf(r: RunnerView)
    requires
        r.wf(),
    ensures
        r.start().0.wf(),
        r.same_setup(r.start().0),
{
}

/// A tick keeps a runner well formed and leaves its setup alone: after any
/// event there is a current sub-scene exactly if the current scene has
/// sub-scenes, and a sub-scene is stored for exactly the scenes that have some.
pub proof fn tick_keeps_wf(r: RunnerView, e: EventView)
    requires
        r.wf(),
    ensures
        r.tick(e).0.wf(),
        r.same_setup(r.tick(e).0),
{
    let raw = r.patched(e);
    let after_scene = r.heed_scene_switch(raw).0;
    assert(after_scene.wf() && r.same_setup(after_scene));
    let after_subscene = after_scene.heed_subscene_switch(raw).0;
    assert(after_subscene.wf() && r.same_setup(after_subscene));
}

/// Any number of ticks keeps a runner well formed and leaves its setup alone.
pub proof fn ticks_keep_wf(r: RunnerView, events: Seq<EventView>)
    requires
        r.wf(),
    ensures
        r.ticks(events).0.wf(),
        r.same_setup(r.ticks(events).0),
    decreases events.len(),
{
    if events.len() > 0 {
        ticks_keep_wf(r, events.drop_last());
        tick_keeps_wf(r.ticks(events.drop_last()).0, events.last());
    }
}

/// A quit signal among what a tick makes stops the run, and nothing starts
/// it again.
pub proof fn quit_stops_the_run(r: RunnerView, e: EventView)
    ensures
        r.tick(e).1.contains(EventView::Quit) ==> !r.tick(e).0.running,
        !r.running ==> !r.tick(e).0.running,
{
}

} // verus!
