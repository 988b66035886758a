//! What every node of a patch can do.
use crate::event::EventView;
use crate::event_stream::EventStream;
use vstd::prelude::*;

verus! {

/// A node of a patch: something that transforms a stream of events.
///
/// Each of the four ways to run a node has a spec function that says what it
/// makes of a stream. Where the node is deterministic, which every node is
/// that holds no code of the user, the executable method does exactly that.
/// A patch is immutable once built: running it changes the stream only.
pub trait FilterTrait {
    /// Whether what the node does is a function of the stream alone.
    spec fn deterministic(&self) -> bool;

    /// What `run` makes of `evs`.
    spec fn run_spec(&self, evs: Seq<EventView>) -> Seq<EventView>;

    /// What `run_inverse` makes of `evs`.
    spec fn run_inverse_spec(&self, evs: Seq<EventView>) -> Seq<EventView>;

    /// What `run_init` makes of `evs`.
    spec fn run_init_spec(&self, evs: Seq<EventView>) -> Seq<EventView>;

    /// What `run_exit` makes of `evs`.
    spec fn run_exit_spec(&self, evs: Seq<EventView>) -> Seq<EventView>;

    /// Processes the events of one tick.
    fn run(&self, evs: &mut EventStream)
        ensures
            self.deterministic() ==> final(evs)@ == self.run_spec(old(evs)@),
    ;

    /// What the node does in place of `run` when it stands under a negation.
    fn run_inverse(&self, evs: &mut EventStream)
        ensures
            self.deterministic() ==> final(evs)@ == self.run_inverse_spec(old(evs)@),
    ;

    /// Runs when the scene or patch that holds the node is entered.
    fn run_init(&self, evs: &mut EventStream)
        ensures
            self.deterministic() ==> final(evs)@ == self.run_init_spec(old(evs)@),
    ;

    /// Runs when the scene or patch that holds the node is left.
    fn run_exit(&self, evs: &mut EventStream)
        ensures
            self.deterministic() ==> final(evs)@ == self.run_exit_spec(old(evs)@),
    ;
}

} // verus!
