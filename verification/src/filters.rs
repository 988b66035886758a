//! Filters: nodes that let an event through or drop it, and never change one.
use crate::event::{Event, EventView};
use crate::event_stream::EventStream;
use crate::filter_trait::FilterTrait;
use vstd::prelude::*;

verus! {

/// A family of event kinds that a type filter lets through.
#[derive(Debug, Copy, Clone, PartialEq, Eq, Hash, Structural)]
pub enum EventType {
    /// Notes, controller changes and system exclusive messages.
    Midi,
    /// Note-on and note-off messages.
    Note,
    NoteOn,
    NoteOff,
    Ctrl,
    SysEx,
    /// The placeholder event.
    Nothing,
    Quit,
    SceneSwitch,
    SubSceneSwitch,
    Osc,
}

impl EventType {
    /// Whether `e` is of this kind.
    pub open spec fn holds(self, e: EventView) -> bool {
        match self {
            EventType::Midi => e is NoteOn || e is NoteOff || e is Ctrl || e is SysEx,
            EventType::Note => e is NoteOn || e is NoteOff,
            EventType::NoteOn => e is NoteOn,
            EventType::NoteOff => e is NoteOff,
            EventType::Ctrl => e is Ctrl,
            EventType::SysEx => e is SysEx,
            EventType::Nothing => e is Nothing,
            EventType::Quit => e is Quit,
            EventType::SceneSwitch => e is SceneSwitch,
            EventType::SubSceneSwitch => e is SubSceneSwitch,
            EventType::Osc => e is Osc,
        }
    }

    /// Whether `ev` is of this kind.
    pub fn matches(&self, ev: &Event) -> (b: bool)
        ensures
            b == self.holds(ev@),
    {
        match self {
            EventType::Midi => match ev {
                Event::NoteOn(_) => true,
                Event::NoteOff(_) => true,
                Event::Ctrl(_) => true,
                Event::SysEx(_) => true,
                _ => false,
            },
            EventType::Note => match ev {
                Event::NoteOn(_) => true,
                Event::NoteOff(_) => true,
                _ => false,
            },
            EventType::NoteOn => match ev {
                Event::NoteOn(_) => true,
                _ => false,
            },
            EventType::NoteOff => match ev {
                Event::NoteOff(_) => true,
                _ => false,
            },
            EventType::Ctrl => match ev {
                Event::Ctrl(_) => true,
                _ => false,
            },
            EventType::SysEx => match ev {
                Event::SysEx(_) => true,
                _ => false,
            },
            EventType::Nothing => match ev {
                Event::Nothing(_) => true,
                _ => false,
            },
            EventType::Quit => match ev {
                Event::Quit(_) => true,
                _ => false,
            },
            EventType::SceneSwitch => match ev {
                Event::SceneSwitch(_) => true,
                _ => false,
            },
            EventType::SubSceneSwitch => match ev {
                Event::SubSceneSwitch(_) => true,
                _ => false,
            },
            EventType::Osc => match ev {
                Event::Osc(_) => true,
                _ => false,
            },
        }
    }
}

/// A filter: a predicate on single events.
///
/// A filter has an opinion only on the kinds of event that carry what it
/// looks at, and lets every other event through.
#[derive(Debug)]
pub enum Filter {
    /// Events of one family of kinds.
    Type(EventType),
    /// Messages on one port.
    Port(usize),
    /// Messages on one of several ports.
    Ports(Vec<usize>),
    /// Notes and controller changes on one channel.
    Channel(u8),
    /// Notes and controller changes on one of several channels.
    Channels(Vec<u8>),
    /// Notes of one key.
    Key(u8),
    /// Notes of one of several keys.
    Keys(Vec<u8>),
    /// Notes whose key lies between the two bounds, both included.
    KeyRange(u8, u8),
    /// Changes of one controller.
    Ctrl(u32),
    /// Changes of one of several controllers.
    Ctrls(Vec<u32>),
    /// Controller changes to one value.
    CtrlValue(i32),
    /// Controller changes to one of several values.
    CtrlValues(Vec<i32>),
    /// Controller changes to a value between the two bounds, both included.
    CtrlValueRange(i32, i32),
    /// OSC messages with exactly this address.
    OscAddr(String),
}

/// The events of `s` about which `accepts` answers `want`, in order.
pub open spec fn select(s: Seq<EventView>, accepts: spec_fn(EventView) -> bool, want: bool) -> Seq<
    EventView,
>
    decreases s.len(),
{
    if s.len() == 0 {
        Seq::empty()
    } else {
        let before = select(s.drop_last(), accepts, want);
        if accepts(s.last()) == want {
            before.push(s.last())
        } else {
            before
        }
    }
}

impl Filter {
    /// Whether the filter lets `e` through.
    pub open spec fn accepts(&self, e: EventView) -> bool {
        match self {
            Filter::Type(t) => t.holds(e),
            Filter::Port(p) => match e.port() {
                Some(q) => q == *p,
                None => true,
            },
            Filter::Ports(ps) => match e.port() {
                Some(q) => ps@.contains(q),
                None => true,
            },
            Filter::Channel(c) => match e.channel() {
                Some(d) => d == *c,
                None => true,
            },
            Filter::Channels(cs) => match e.channel() {
                Some(d) => cs@.contains(d),
                None => true,
            },
            Filter::Key(k) => match e.note() {
                Some(n) => n == *k,
                None => true,
            },
            Filter::Keys(ks) => match e.note() {
                Some(n) => ks@.contains(n),
                None => true,
            },
            Filter::KeyRange(lo, hi) => match e.note() {
                Some(n) => *lo <= n && n <= *hi,
                None => true,
            },
            Filter::Ctrl(c) => match e {
                EventView::Ctrl(x) => x.ctrl == *c,
                _ => true,
            },
            Filter::Ctrls(cs) => match e {
                EventView::Ctrl(x) => cs@.contains(x.ctrl),
                _ => true,
            },
            Filter::CtrlValue(v) => match e {
                EventView::Ctrl(x) => x.value == *v,
                _ => true,
            },
            Filter::CtrlValues(vs) => match e {
                EventView::Ctrl(x) => vs@.contains(x.value),
                _ => true,
            },
            Filter::CtrlValueRange(lo, hi) => match e {
                EventView::Ctrl(x) => *lo <= x.value && x.value <= *hi,
                _ => true,
            },
            Filter::OscAddr(a) => match e {
                EventView::Osc { addr, .. } => addr == a@,
                _ => true,
            },
        }
    }

    /// Whether the filter lets `ev` through.
    pub fn filter_single(&self, ev: &Event) -> (b: bool)
        ensures
            b == self.accepts(ev@),
    {
        match self {
            Filter::Type(t) => t.matches(ev),
            Filter::Port(p) => match event_port(ev) {
                Some(q) => q == *p,
                None => true,
            },
            Filter::Ports(ps) => match event_port(ev) {
                Some(q) => contains_usize(ps, q),
                None => true,
            },
            Filter::Channel(c) => match event_channel(ev) {
                Some(d) => d == *c,
                None => true,
            },
            Filter::Channels(cs) => match event_channel(ev) {
                Some(d) => contains_u8(cs, d),
                None => true,
            },
            Filter::Key(k) => match event_note(ev) {
                Some(n) => n == *k,
                None => true,
            },
            Filter::Keys(ks) => match event_note(ev) {
                Some(n) => contains_u8(ks, n),
                None => true,
            },
            Filter::KeyRange(lo, hi) => match event_note(ev) {
                Some(n) => *lo <= n && n <= *hi,
                None => true,
            },
            Filter::Ctrl(c) => match ev {
                Event::Ctrl(x) => x.ctrl == *c,
                _ => true,
            },
            Filter::Ctrls(cs) => match ev {
                Event::Ctrl(x) => contains_u32(cs, x.ctrl),
                _ => true,
            },
            Filter::CtrlValue(v) => match ev {
                Event::Ctrl(x) => x.value == *v,
                _ => true,
            },
            Filter::CtrlValues(vs) => match ev {
                Event::Ctrl(x) => contains_i32(vs, x.value),
                _ => true,
            },
            Filter::CtrlValueRange(lo, hi) => match ev {
                Event::Ctrl(x) => *lo <= x.value && x.value <= *hi,
                _ => true,
            },
            Filter::OscAddr(a) => match ev {
                Event::Osc(x) => x.addr == *a,
                _ => true,
            },
        }
    }

    /// The events of `evs` about which the filter answers `want`, in order.
    pub open spec fn kept(&self, evs: Seq<EventView>, want: bool) -> Seq<EventView> {
        select(evs, |e: EventView| self.accepts(e), want)
    }

    fn keep(&self, evs: &mut EventStream, want: bool)
        ensures
            final(evs)@ == self.kept(old(evs)@, want),
    {
        let mut out = EventStream::empty();
        let ghost accepts = |e: EventView| self.accepts(e);
        let mut i: usize = 0;
        while i < evs.len()
            invariant
                i <= evs@.len(),
                *evs == *old(evs),
                accepts == (|e: EventView| self.accepts(e)),
                out@ == select(evs@.take(i as int), accepts, want),
            decreases evs@.len() - i,
        {
            let ev = evs.get(i);
            proof {
                assert(evs@.take(i + 1).drop_last() =~= evs@.take(i as int));
            }
            if self.filter_single(ev) == want {
                out.push(ev.clone());
            }
            i += 1;
        }
        assert(evs@.take(i as int) =~= evs@);
        evs.replace(out);
    }
}

impl FilterTrait for Filter {
    open spec fn deterministic(&self) -> bool {
        true
    }

    open spec fn run_spec(&self, evs: Seq<EventView>) -> Seq<EventView> {
        self.kept(evs, true)
    }

    open spec fn run_inverse_spec(&self, evs: Seq<EventView>) -> Seq<EventView> {
        self.kept(evs, false)
    }

    open spec fn run_init_spec(&self, evs: Seq<EventView>) -> Seq<EventView> {
        evs
    }

    open spec fn run_exit_spec(&self, evs: Seq<EventView>) -> Seq<EventView> {
        evs
    }

    fn run(&self, evs: &mut EventStream)
        ensures
            final(evs)@ == self.run_spec(old(evs)@),
    {
        self.keep(evs, true);
    }

    fn run_inverse(&self, evs: &mut EventStream)
        ensures
            final(evs)@ == self.run_inverse_spec(old(evs)@),
    {
        self.keep(evs, false);
    }

    fn run_init(&self, evs: &mut EventStream)
        ensures
            final(evs)@ == self.run_init_spec(old(evs)@),
    {
    }

    fn run_exit(&self, evs: &mut EventStream)
        ensures
            final(evs)@ == self.run_exit_spec(old(evs)@),
    {
    }
}

/// The port of a message.
pub fn event_port(ev: &Event) -> (p: Option<usize>)
    ensures
        p == ev@.port(),
{
    match ev {
        Event::NoteOn(e) => Some(e.port),
        Event::NoteOff(e) => Some(e.port),
        Event::Ctrl(e) => Some(e.port),
        Event::SysEx(e) => Some(e.port),
        Event::Osc(e) => Some(e.port),
        _ => None,
    }
}

/// The channel of a note or controller message.
pub fn event_channel(ev: &Event) -> (c: Option<u8>)
    ensures
        c == ev@.channel(),
{
    match ev {
        Event::NoteOn(e) => Some(e.channel),
        Event::NoteOff(e) => Some(e.channel),
        Event::Ctrl(e) => Some(e.channel),
        _ => None,
    }
}

/// The key of a note message.
pub fn event_note(ev: &Event) -> (n: Option<u8>)
    ensures
        n == ev@.note(),
{
    match ev {
        Event::NoteOn(e) => Some(e.note),
        Event::NoteOff(e) => Some(e.note),
        _ => None,
    }
}

fn contains_usize(v: &Vec<usize>, x: usize) -> (found: bool)
    ensures
        found == v@.contains(x),
{
    let mut i: usize = 0;
    while i < v.len()
        invariant
            i <= v.len(),
            forall|j: int| 0 <= j < i ==> v@[j] != x,
        decreases v.len() - i,
    {
        if v[i] == x {
            return true;
        }
        i += 1;
    }
    false
}

fn contains_u8(v: &Vec<u8>, x: u8) -> (found: bool)
    ensures
        found == v@.contains(x),
{
    let mut i: usize = 0;
    while i < v.len()
        invariant
            i <= v.len(),
            forall|j: int| 0 <= j < i ==> v@[j] != x,
        decreases v.len() - i,
    {
        if v[i] == x {
            return true;
        }
        i += 1;
    }
    false
}

fn contains_u32(v: &Vec<u32>, x: u32) -> (found: bool)
    ensures
        found == v@.contains(x),
{
    let mut i: usize = 0;
    while i < v.len()
        invariant
            i <= v.len(),
            forall|j: int| 0 <= j < i ==> v@[j] != x,
        decreases v.len() - i,
    {
        if v[i] == x {
            return true;
        }
        i += 1;
    }
    false
}

fn contains_i32(v: &Vec<i32>, x: i32) -> (found: bool)
    ensures
        found == v@.contains(x),
{
    let mut i: usize = 0;
    while i < v.len()
        invariant
            i <= v.len(),
            forall|j: int| 0 <= j < i ==> v@[j] != x,
        decreases v.len() - i,
    {
        if v[i] == x {
            return true;
        }
        i += 1;
    }
    false
}

/// Lets through the events of one family of kinds.
#[allow(non_snake_case)]
pub fn TypeFilter(kind: EventType) -> (r: Filter)
    ensures
        r == Filter::Type(kind),
{
    Filter::Type(kind)
}

/// Lets through the messages on one port.
#[allow(non_snake_case)]
pub fn PortFilter(port: usize) -> (r: Filter)
    ensures
        r == Filter::Port(port),
{
    Filter::Port(port)
}

/// Lets through the messages on one of several ports.
#[allow(non_snake_case)]
pub fn PortsFilter(ports: Vec<usize>) -> (r: Filter)
    ensures
        r == Filter::Ports(ports),
{
    Filter::Ports(ports)
}

/// Lets through the notes and controller changes on one channel.
#[allow(non_snake_case)]
pub fn ChannelFilter(channel: u8) -> (r: Filter)
    ensures
        r == Filter::Channel(channel),
{
    Filter::Channel(channel)
}

/// Lets through the notes and controller changes on one of several channels.
#[allow(non_snake_case)]
pub fn ChannelsFilter(channels: Vec<u8>) -> (r: Filter)
    ensures
        r == Filter::Channels(channels),
{
    Filter::Channels(channels)
}

/// Lets through the notes of one key.
#[allow(non_snake_case)]
pub fn KeyFilter(key: u8) -> (r: Filter)
    ensures
        r == Filter::Key(key),
{
    Filter::Key(key)
}

/// Lets through the notes of one of several keys.
#[allow(non_snake_case)]
pub fn KeysFilter(keys: Vec<u8>) -> (r: Filter)
    ensures
        r == Filter::Keys(keys),
{
    Filter::Keys(keys)
}

/// Lets through the notes whose key lies between `lower` and `upper`, both included.
#[allow(non_snake_case)]
pub fn KeyRangeFilter(lower: u8, upper: u8) -> (r: Filter)
    ensures
        r == Filter::KeyRange(lower, upper),
{
    Filter::KeyRange(lower, upper)
}

/// Lets through the changes of one controller.
#[allow(non_snake_case)]
pub fn CtrlFilter(ctrl: u32) -> (r: Filter)
    ensures
        r == Filter::Ctrl(ctrl),
{
    Filter::Ctrl(ctrl)
}

/// Lets through the changes of one of several controllers.
#[allow(non_snake_case)]
pub fn CtrlsFilter(ctrls: Vec<u32>) -> (r: Filter)
    ensures
        r == Filter::Ctrls(ctrls),
{
    Filter::Ctrls(ctrls)
}

/// Lets through the controller changes to one value.
#[allow(non_snake_case)]
pub fn CtrlValueFilter(value: i32) -> (r: Filter)
    ensures
        r == Filter::CtrlValue(value),
{
    Filter::CtrlValue(value)
}

/// Lets through the controller changes to one of several values.
#[allow(non_snake_case)]
pub fn CtrlValuesFilter(values: Vec<i32>) -> (r: Filter)
    ensures
        r == Filter::CtrlValues(values),
{
    Filter::CtrlValues(values)
}

/// Lets through the controller changes to a value between `lower` and `upper`, both included.
#[allow(non_snake_case)]
pub fn CtrlValueRangeFilter(lower: i32, upper: i32) -> (r: Filter)
    ensures
        r == Filter::CtrlValueRange(lower, upper),
{
    Filter::CtrlValueRange(lower, upper)
}

/// Lets through the OSC messages with exactly this address.
#[allow(non_snake_case)]
pub fn OscAddrFilter(addr: String) -> (r: Filter)
    ensures
        r == Filter::OscAddr(addr),
{
    Filter::OscAddr(addr)
}

} // verus!
