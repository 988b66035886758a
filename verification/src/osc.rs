//! Nodes that work on the address of OSC messages.
use crate::event::{Event, EventView};
use crate::event_stream::EventStream;
use crate::filter_trait::FilterTrait;
use crate::filters::select;
use crate::strings::{skip_chars, starts_with};
use vstd::prelude::*;
use vstd::string::StrSliceExecFns;

verus! {

/// Keeps the OSC messages whose address begins with a prefix, and takes the
/// prefix off their address. Events that are no OSC messages pass unchanged.
///
/// Under a negation it keeps, unchanged, what it would otherwise drop.
#[derive(Debug)]
pub struct OscStripPrefix(pub String);

impl OscStripPrefix {
    /// Whether the node lets `e` through.
    pub open spec fn accepts(&self, e: EventView) -> bool {
        match e {
            EventView::Osc { addr, .. } => self.0@.is_prefix_of(addr),
            _ => true,
        }
    }

    /// `e` with the prefix taken off its address.
    pub open spec fn strip(&self, e: EventView) -> EventView {
        match e {
            EventView::Osc { port, addr, args } => EventView::Osc {
                port,
                addr: addr.skip(self.0@.len() as int),
                args,
            },
            _ => e,
        }
    }

    /// The events of `s` that the node lets through, each with the prefix
    /// taken off, in order.
    pub open spec fn stripped(&self, s: Seq<EventView>) -> Seq<EventView>
        decreases s.len(),
    {
        if s.len() == 0 {
            Seq::empty()
        } else {
            let before = self.stripped(s.drop_last());
            if self.accepts(s.last()) {
                before.push(self.strip(s.last()))
            } else {
                before
            }
        }
    }

    /// Whether the node lets `ev` through.
    pub fn filter_single(&self, ev: &Event) -> (b: bool)
        ensures
            b == self.accepts(ev@),
    {
        match ev {
            Event::Osc(e) => starts_with(e.addr.as_str(), self.0.as_str()),
            _ => true,
        }
    }

    /// Takes the prefix off the address of `ev`.
    pub fn modify_single(&self, ev: &mut Event)
        requires
            self.accepts(old(ev)@),
        ensures
            final(ev)@ == self.strip(old(ev)@),
    {
        match ev {
            Event::Osc(e) => {
                let n = self.0.as_str().unicode_len();
                e.addr = skip_chars(e.addr.as_str(), n);
            },
            _ => {},
        }
    }
}

impl FilterTrait for OscStripPrefix {
    open spec fn deterministic(&self) -> bool {
        true
    }

    open spec fn run_spec(&self, evs: Seq<EventView>) -> Seq<EventView> {
        self.stripped(evs)
    }

    open spec fn run_inverse_spec(&self, evs: Seq<EventView>) -> Seq<EventView> {
        select(evs, |e: EventView| self.accepts(e), false)
    }

    open spec fn run_init_spec(&self, evs: Seq<EventView>) -> Seq<EventView> {
        evs
    }

    open spec fn run_exit_spec(&self, evs: Seq<EventView>) -> Seq<EventView> {
        evs
    }

    fn run(&self, evs: &mut EventStream)
        ensures
            final(evs)@ == self.run_spec(old(evs)@),
    {
        let mut out = EventStream::empty();
        let mut i: usize = 0;
        while i < evs.len()
            invariant
                i <= evs@.len(),
                *evs == *old(evs),
                out@ == self.stripped(evs@.take(i as int)),
            decreases evs@.len() - i,
        {
            let ev = evs.get(i);
            proof {
                assert(evs@.take(i + 1).drop_last() =~= evs@.take(i as int));
            }
            if self.filter_single(ev) {
                let mut kept = ev.clone();
                self.modify_single(&mut kept);
                out.push(kept);
            }
            i += 1;
        }
        assert(evs@.take(i as int) =~= evs@);
        evs.replace(out);
    }

    fn run_inverse(&self, evs: &mut EventStream)
        ensures
            final(evs)@ == self.run_inverse_spec(old(evs)@),
    {
        let mut out = EventStream::empty();
        let ghost accepts = |e: EventView| self.accepts(e);
        let mut i: usize = 0;
        while i < evs.len()
            invariant
                i <= evs@.len(),
                *evs == *old(evs),
                accepts == (|e: EventView| self.accepts(e)),
                out@ == select(evs@.take(i as int), accepts, false),
            decreases evs@.len() - i,
        {
            let ev = evs.get(i);
            proof {
                assert(evs@.take(i + 1).drop_last() =~= evs@.take(i as int));
            }
            if !self.filter_single(ev) {
                out.push(ev.clone());
            }
            i += 1;
        }
        assert(evs@.take(i as int) =~= evs@);
        evs.replace(out);
    }

    fn run_init(&self, evs: &mut EventStream)
        ensures
            final(evs)@ == self.run_init_spec(old(evs)@),
    {
    }

    fn run_exit(&self, evs: &mut EventStream)
        ensures
            final(evs)@ == self.run_exit_spec(old(evs)@),
    {
    }
}

} // verus!
