//! The ordered sequence of events that a patch transforms.
use crate::event::{Event, EventView};
use vstd::prelude::*;
use vstd::std_specs::cmp::PartialEqSpecImpl;
use vstd::std_specs::convert::FromSpecImpl;

verus! {

/// `s` without the items that already occur earlier in it: of equal items
/// the first stays, and what stays keeps its order.
pub open spec fn dedup_spec<A>(s: Seq<A>) -> Seq<A>
    decreases s.len(),
{
    if s.len() == 0 {
        Seq::empty()
    } else {
        let before = dedup_spec(s.drop_last());
        if before.contains(s.last()) {
            before
        } else {
            before.push(s.last())
        }
    }
}

/// Whether `a` can be had from `b` by leaving items out.
pub open spec fn is_subsequence<A>(a: Seq<A>, b: Seq<A>) -> bool
    decreases b.len(),
{
    if a.len() == 0 {
        true
    } else if b.len() == 0 {
        false
    } else {
        (a.last() == b.last() && is_subsequence(a.drop_last(), b.drop_last())) || is_subsequence(
            a,
            b.drop_last(),
        )
    }
}

/// The items of `s` whose mark in `keep` is set, in order.
pub open spec fn masked<A>(s: Seq<A>, keep: Seq<bool>) -> Seq<A>
    recommends
        keep.len() == s.len(),
    decreases s.len(),
{
    if s.len() == 0 || keep.len() != s.len() {
        Seq::empty()
    } else {
        let before = masked(s.drop_last(), keep.drop_last());
        if keep.last() {
            before.push(s.last())
        } else {
            before
        }
    }
}

/// The views of a list of events, in order.
pub open spec fn events_view(events: Seq<Event>) -> Seq<EventView> {
    events.map_values(|e: Event| e@)
}

/// A subsequence of `b` is a subsequence of `b` with one more item.
pub proof fn lemma_subsequence_push<A>(a: Seq<A>, b: Seq<A>, x: A)
    requires
        is_subsequence(a, b),
    ensures
        is_subsequence(a, b.push(x)),
        is_subsequence(a.push(x), b.push(x)),
{
    assert(b.push(x).drop_last() =~= b);
    assert(a.push(x).drop_last() =~= a);
}

/// What `dedup_spec` returns holds each of its items once, holds exactly the
/// items of `s`, and is a subsequence of `s`.
pub proof fn lemma_dedup_properties<A>(s: Seq<A>)
    ensures
        dedup_spec(s).no_duplicates(),
        forall|x: A| dedup_spec(s).contains(x) <==> s.contains(x),
        is_subsequence(dedup_spec(s), s),
        dedup_spec(s).len() <= s.len(),
    decreases s.len(),
{
    if s.len() > 0 {
        let before = dedup_spec(s.drop_last());
        lemma_dedup_properties(s.drop_last());
        assert forall|x: A| dedup_spec(s).contains(x) <==> s.contains(x) by {
            if s.contains(x) {
                let i = choose|i: int| 0 <= i < s.len() && s[i] == x;
                if i < s.len() - 1 {
                    assert(s.drop_last()[i] == x);
                    assert(s.drop_last().contains(x));
                    assert(before.contains(x));
                    let j = choose|j: int| 0 <= j < before.len() && before[j] == x;
                    assert(dedup_spec(s)[j] == x);
                } else {
                    if !before.contains(x) {
                        assert(dedup_spec(s)[before.len() as int] == x);
                    }
                }
            }
            if dedup_spec(s).contains(x) {
                let j = choose|j: int| 0 <= j < dedup_spec(s).len() && dedup_spec(s)[j] == x;
                if j < before.len() {
                    assert(before[j] == x);
                    assert(before.contains(x));
                    assert(s.drop_last().contains(x));
                    let i = choose|i: int| 0 <= i < s.drop_last().len() && s.drop_last()[i] == x;
                    assert(s[i] == x);
                } else {
                    assert(s[s.len() - 1] == x);
                }
            }
        }
        if before.contains(s.last()) {
            assert(is_subsequence(before, s));
        } else {
            lemma_subsequence_push(before, s.drop_last(), s.last());
            assert(s.drop_last().push(s.last()) =~= s);
        }
    }
}

/// A sequence that holds each of its items once is left as it is.
pub proof fn lemma_dedup_of_distinct<A>(s: Seq<A>)
    requires
        s.no_duplicates(),
    ensures
        dedup_spec(s) == s,
    decreases s.len(),
{
    if s.len() > 0 {
        let front = s.drop_last();
        lemma_dedup_of_distinct(front);
        if front.contains(s.last()) {
            let i = choose|i: int| 0 <= i < front.len() && front[i] == s.last();
            assert(s[i] == s[s.len() - 1]);
        }
        assert(front.push(s.last()) =~= s);
    } else {
        assert(s =~= Seq::empty());
    }
}

/// Removing duplicates twice gives what removing them once gives.
pub proof fn lemma_dedup_idempotent<A>(s: Seq<A>)
    ensures
        dedup_spec(dedup_spec(s)) == dedup_spec(s),
{
    lemma_dedup_properties(s);
    lemma_dedup_of_distinct(dedup_spec(s));
}

/// An ordered sequence of events; equal events may occur more than once.
#[derive(Debug, Hash)]
pub struct EventStream {
    events: Vec<Event>,
}

impl View for EventStream {
    type V = Seq<EventView>;

    open spec fn view(&self) -> Seq<EventView> {
        events_view(self.items())
    }
}

impl EventStream {
    /// The events themselves, in order.
    pub closed spec fn items(&self) -> Seq<Event> {
        self.events@
    }

    /// A stream without events.
    pub fn empty() -> (s: Self)
        ensures
            s@ == Seq::<EventView>::empty(),
    {
        let s = EventStream { events: Vec::new() };
        assert(s@ =~= Seq::<EventView>::empty());
        s
    }

    /// A stream that holds the placeholder event and nothing else, as handed
    /// to the patches that run when a scene is entered or left.
    pub fn none() -> (s: Self)
        ensures
            s@ == seq![EventView::Nothing],
    {
        let mut events: Vec<Event> = Vec::new();
        events.push(Event::default());
        let s = EventStream { events };
        assert(s@ =~= seq![EventView::Nothing]);
        s
    }

    /// The number of events.
    pub fn len(&self) -> (n: usize)
        ensures
            n == self@.len(),
    {
        self.events.len()
    }

    /// Whether the stream holds no event.
    pub fn is_empty(&self) -> (b: bool)
        ensures
            b == (self@.len() == 0),
    {
        self.events.len() == 0
    }

    /// The event at place `index`.
    pub fn get(&self, index: usize) -> (ev: &Event)
        requires
            index < self@.len(),
        ensures
            ev@ == self@[index as int],
    {
        &self.events[index]
    }

    /// Puts `value` in the place of the event at `index`.
    pub fn set(&mut self, index: usize, value: Event)
        requires
            index < old(self)@.len(),
        ensures
            final(self)@ == old(self)@.update(index as int, value@),
    {
        self.events[index] = value;
        assert(self@ =~= old(self)@.update(index as int, value@));
    }

    /// The events in order, the stream given up.
    pub fn into_vec(self) -> (v: Vec<Event>)
        ensures
            v@ == self.items(),
    {
        self.events
    }

    /// The events in order.
    pub fn as_vec(&self) -> (v: &Vec<Event>)
        ensures
            v@ == self.items(),
    {
        &self.events
    }

    /// Removes all events.
    pub fn clear(&mut self)
        ensures
            final(self)@ == Seq::<EventView>::empty(),
    {
        self.events.clear();
        assert(self@ =~= Seq::<EventView>::empty());
    }

    /// Adds `value` at the end.
    pub fn push(&mut self, value: Event)
        ensures
            final(self)@ == old(self)@.push(value@),
    {
        self.events.push(value);
        assert(self@ =~= old(self)@.push(value@));
    }

    /// Takes the last event off, if there is one.
    pub fn pop(&mut self) -> (r: Option<Event>)
        ensures
            old(self)@.len() == 0 ==> r is None && final(self)@ == old(self)@,
            old(self)@.len() > 0 ==> r is Some && r->0@ == old(self)@.last() && final(self)@ == old(
                self,
            )@.drop_last(),
    {
        let r = self.events.pop();
        assert(old(self)@.len() > 0 ==> self@ =~= old(self)@.drop_last());
        r
    }

    /// Takes out the event at `index`; those behind it move up.
    pub fn remove(&mut self, index: usize) -> (r: Event)
        requires
            index < old(self)@.len(),
        ensures
            r@ == old(self)@[index as int],
            final(self)@ == old(self)@.remove(index as int),
    {
        let r = self.events.remove(index);
        assert(self@ =~= old(self)@.remove(index as int));
        r
    }

    /// Moves all events of `other` to the end of this stream.
    pub fn append(&mut self, other: &mut Vec<Event>)
        ensures
            final(self)@ == old(self)@ + events_view(old(other)@),
            final(other)@.len() == 0,
    {
        self.events.append(other);
        assert(self@ =~= old(self)@ + events_view(old(other)@));
    }

    /// Adds the events of `other` at the end.
    pub fn extend(&mut self, other: EventStream)
        ensures
            final(self)@ == old(self)@ + other@,
    {
        let mut rest = other.events;
        self.events.append(&mut rest);
        assert(self@ =~= old(self)@ + other@);
    }

    /// Puts the events of `other` in place of those of this stream.
    pub fn replace(&mut self, other: EventStream)
        ensures
            final(self)@ == other@,
    {
        self.events = other.events;
    }

    /// Keeps the events for which `f` answers `true`, in order, and drops the
    /// others. `f` is asked once about each event, from first to last.
    pub fn retain<F: Fn(&Event) -> bool>(&mut self, f: F)
        requires
            forall|e: &Event| call_requires(f, (e,)),
        ensures
            exists|keep: Seq<bool>|
                {
                    &&& keep.len() == old(self)@.len()
                    &&& forall|i: int|
                        0 <= i < keep.len() ==> call_ensures(
                            f,
                            (&#[trigger] old(self).items()[i],),
                            keep[i],
                        )
                    &&& final(self)@ == masked(old(self)@, keep)
                },
    {
        let mut kept: Vec<Event> = Vec::new();
        let ghost mut keep: Seq<bool> = Seq::empty();
        let mut i: usize = 0;
        while i < self.events.len()
            invariant
                i <= self.events.len(),
                self.events == old(self).events,
                keep.len() == i,
                forall|e: &Event| call_requires(f, (e,)),
                forall|j: int|
                    0 <= j < i ==> call_ensures(f, (&#[trigger] old(self).items()[j],), keep[j]),
                events_view(kept@) == masked(old(self)@.take(i as int), keep),
            decreases self.events.len() - i,
        {
            let b = f(&self.events[i]);
            proof {
                let s = old(self)@.take(i + 1);
                assert(s.drop_last() =~= old(self)@.take(i as int));
                assert(keep.push(b).drop_last() =~= keep);
            }
            if b {
                kept.push(self.events[i].clone());
                assert(events_view(kept@) =~= masked(old(self)@.take(i + 1), keep.push(b)));
            }
            proof {
                keep = keep.push(b);
            }
            i += 1;
        }
        assert(old(self)@.take(i as int) =~= old(self)@);
        self.events = kept;
    }

    /// Removes every event that is equal to an earlier one.
    pub fn dedup(&mut self)
        ensures
            final(self)@ == dedup_spec(old(self)@),
    {
        let mut kept: Vec<Event> = Vec::new();
        let mut i: usize = 0;
        while i < self.events.len()
            invariant
                i <= self.events.len(),
                self.events == old(self).events,
                events_view(kept@) == dedup_spec(old(self)@.take(i as int)),
            decreases self.events.len() - i,
        {
            let seen = contains_event(&kept, &self.events[i]);
            proof {
                let s = old(self)@.take(i + 1);
                assert(s.drop_last() =~= old(self)@.take(i as int));
                assert(s.last() == self.events@[i as int]@);
            }
            if !seen {
                kept.push(self.events[i].clone());
                assert(events_view(kept@) =~= dedup_spec(old(self)@.take(i as int)).push(
                    self.events@[i as int]@,
                ));
            }
            i += 1;
        }
        assert(old(self)@.take(i as int) =~= old(self)@);
        self.events = kept;
    }
}

/// Whether `events` holds an event equal to `ev`.
pub fn contains_event(events: &Vec<Event>, ev: &Event) -> (found: bool)
    ensures
        found == events_view(events@).contains(ev@),
{
    let mut i: usize = 0;
    while i < events.len()
        invariant
            i <= events.len(),
            forall|j: int| 0 <= j < i ==> events@[j]@ != ev@,
        decreases events.len() - i,
    {
        if events[i].eq(ev) {
            assert(events_view(events@)[i as int] == ev@);
            return true;
        }
        i += 1;
    }
    assert forall|j: int| 0 <= j < events_view(events@).len() implies events_view(events@)[j]
        != ev@ by {
        assert(events_view(events@)[j] == events@[j]@);
    }
    false
}

impl Default for EventStream {
    fn default() -> (s: Self)
        ensures
            s@ == Seq::<EventView>::empty(),
    {
        EventStream::empty()
    }
}

impl Clone for EventStream {
    fn clone(&self) -> (r: Self)
        ensures
            r@ == self@,
    {
        let mut events: Vec<Event> = Vec::new();
        let mut i: usize = 0;
        while i < self.events.len()
            invariant
                i <= self.events.len(),
                events@.len() == i,
                forall|j: int| 0 <= j < i ==> events@[j]@ == self.events@[j]@,
            decreases self.events.len() - i,
        {
            events.push(self.events[i].clone());
            i += 1;
        }
        let r = EventStream { events };
        assert(r@ =~= self@);
        r
    }
}

impl PartialEq for EventStream {
    fn eq(&self, other: &Self) -> (r: bool) {
        events_eq(&self.events, &other.events)
    }
}

impl PartialEqSpecImpl for EventStream {
    open spec fn obeys_eq_spec() -> bool {
        true
    }

    open spec fn eq_spec(&self, other: &Self) -> bool {
        self@ == other@
    }
}

impl Eq for EventStream {

}

/// Whether two lists hold equal events in the same order.
pub fn events_eq(a: &Vec<Event>, b: &Vec<Event>) -> (r: bool)
    ensures
        r == (events_view(a@) == events_view(b@)),
{
    if a.len() != b.len() {
        assert(events_view(a@).len() != events_view(b@).len());
        return false;
    }
    let mut i: usize = 0;
    while i < a.len()
        invariant
            i <= a.len(),
            a.len() == b.len(),
            forall|j: int| 0 <= j < i ==> a@[j]@ == b@[j]@,
        decreases a.len() - i,
    {
        if !a[i].eq(&b[i]) {
            assert(events_view(a@)[i as int] != events_view(b@)[i as int]);
            return false;
        }
        i += 1;
    }
    assert(events_view(a@) =~= events_view(b@));
    true
}

impl From<Event> for EventStream {
    /// A stream that holds `ev` alone.
    fn from(ev: Event) -> (s: EventStream)
        ensures
            s@ == seq![ev@],
    {
        let mut s = EventStream::empty();
        s.push(ev);
        s
    }
}

impl FromSpecImpl<Event> for EventStream {
    open spec fn obeys_from_spec() -> bool {
        false
    }

    open spec fn from_spec(ev: Event) -> EventStream {
        arbitrary()
    }
}

impl From<&Event> for EventStream {
    /// A stream that holds a copy of `ev` alone.
    fn from(ev: &Event) -> (s: EventStream)
        ensures
            s@ == seq![ev@],
    {
        let mut s = EventStream::empty();
        s.push(ev.clone());
        s
    }
}

impl FromSpecImpl<&Event> for EventStream {
    open spec fn obeys_from_spec() -> bool {
        false
    }

    open spec fn from_spec(ev: &Event) -> EventStream {
        arbitrary()
    }
}

impl From<Option<Event>> for EventStream {
    /// A stream that holds the event, if there is one.
    fn from(oev: Option<Event>) -> (s: EventStream)
        ensures
            s@ == match oev {
                Some(ev) => seq![ev@],
                None => Seq::<EventView>::empty(),
            },
    {
        let mut s = EventStream::empty();
        if let Some(ev) = oev {
            s.push(ev);
        }
        s
    }
}

impl FromSpecImpl<Option<Event>> for EventStream {
    open spec fn obeys_from_spec() -> bool {
        false
    }

    open spec fn from_spec(oev: Option<Event>) -> EventStream {
        arbitrary()
    }
}

impl From<Vec<Event>> for EventStream {
    /// A stream that holds `events` in order.
    fn from(events: Vec<Event>) -> (s: EventStream)
        ensures
            s@ == events_view(events@),
    {
        EventStream { events }
    }
}

impl FromSpecImpl<Vec<Event>> for EventStream {
    open spec fn obeys_from_spec() -> bool {
        false
    }

    open spec fn from_spec(events: Vec<Event>) -> EventStream {
        arbitrary()
    }
}

impl From<&Vec<Event>> for EventStream {
    /// A stream that holds copies of `events` in order.
    fn from(events: &Vec<Event>) -> (s: EventStream)
        ensures
            s@ == events_view(events@),
    {
        let mut s = EventStream::empty();
        let mut i: usize = 0;
        while i < events.len()
            invariant
                i <= events.len(),
                s@ == events_view(events@).take(i as int),
            decreases events.len() - i,
        {
            s.push(events[i].clone());
            assert(s@ =~= events_view(events@).take(i + 1));
            i += 1;
        }
        assert(events_view(events@).take(i as int) =~= events_view(events@));
        s
    }
}

impl FromSpecImpl<&Vec<Event>> for EventStream {
    open spec fn obeys_from_spec() -> bool {
        false
    }

    open spec fn from_spec(events: &Vec<Event>) -> EventStream {
        arbitrary()
    }
}

/// The views of the events that a list refers to, in order.
pub open spec fn refs_view(events: Seq<&Event>) -> Seq<EventView> {
    events.map_values(|e: &Event| e@)
}

impl<'a> From<Vec<&'a Event>> for EventStream {
    /// A stream that holds copies of the events that `events` refers to, in order.
    fn from(events: Vec<&'a Event>) -> (s: EventStream)
        ensures
            s@ == refs_view(events@),
    {
        let mut s = EventStream::empty();
        let mut i: usize = 0;
        while i < events.len()
            invariant
                i <= events.len(),
                s@ == refs_view(events@).take(i as int),
            decreases events.len() - i,
        {
            s.push(events[i].clone());
            assert(s@ =~= refs_view(events@).take(i + 1));
            i += 1;
        }
        assert(refs_view(events@).take(i as int) =~= refs_view(events@));
        s
    }
}

impl<'a> FromSpecImpl<Vec<&'a Event>> for EventStream {
    open spec fn obeys_from_spec() -> bool {
        false
    }

    open spec fn from_spec(events: Vec<&'a Event>) -> EventStream {
        arbitrary()
    }
}

impl<'a> From<Option<&'a Event>> for EventStream {
    /// A stream that holds a copy of the event, if there is one.
    fn from(oev: Option<&'a Event>) -> (s: EventStream)
        ensures
            s@ == match oev {
                Some(ev) => seq![ev@],
                None => Seq::<EventView>::empty(),
            },
    {
        let mut s = EventStream::empty();
        if let Some(ev) = oev {
            s.push(ev.clone());
        }
        s
    }
}

impl<'a> FromSpecImpl<Option<&'a Event>> for EventStream {
    open spec fn obeys_from_spec() -> bool {
        false
    }

    open spec fn from_spec(oev: Option<&'a Event>) -> EventStream {
        arbitrary()
    }
}

impl PartialEq<Vec<Event>> for EventStream {
    fn eq(&self, other: &Vec<Event>) -> (r: bool) {
        events_eq(&self.events, other)
    }
}

impl PartialEqSpecImpl<Vec<Event>> for EventStream {
    open spec fn obeys_eq_spec() -> bool {
        true
    }

    open spec fn eq_spec(&self, other: &Vec<Event>) -> bool {
        self@ == events_view(other@)
    }
}

impl PartialEq<Event> for EventStream {
    fn eq(&self, other: &Event) -> (r: bool) {
        if self.events.len() != 1 {
            assert(self@.len() != seq![other@].len());
            return false;
        }
        let r = self.events[0].eq(other);
        proof {
            if r {
                assert(self@ =~= seq![other@]);
            } else {
                assert(self@[0] != seq![other@][0]);
            }
        }
        r
    }
}

impl PartialEqSpecImpl<Event> for EventStream {
    open spec fn obeys_eq_spec() -> bool {
        true
    }

    open spec fn eq_spec(&self, other: &Event) -> bool {
        self@ == seq![other@]
    }
}

} // verus!
