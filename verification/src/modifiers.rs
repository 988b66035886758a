//! Modifiers: nodes that change events one by one and never add or drop one.
use crate::event::{CtrlEventImpl, Event, EventView, NoteOffEventImpl, NoteOnEventImpl};
use crate::event_stream::EventStream;
use crate::filter_trait::FilterTrait;
use vstd::prelude::*;
use vstd::string::StringExecFns;

verus! {

/// A modifier: a function from events to events.
///
/// A modifier changes only the kinds of event that carry what it sets, and
/// leaves every other event as it is.
#[derive(Debug)]
pub enum Modifier {
    /// Sets the port of a message.
    Port(usize),
    /// Sets the channel of a note or controller change.
    Channel(u8),
    /// Moves the key of a note by a number of semitones, staying within 0 to 127.
    Transpose(i16),
    /// Sets the key of a note.
    Key(u8),
    /// Adds to the velocity of a note-on, staying within 0 to 127.
    Velocity(i16),
    /// Sets the velocity of a note-on.
    VelocityFixed(u8),
    /// Renumbers the controller of a change: the first number becomes the second.
    CtrlMap(u32, u32),
    /// Puts a prefix in front of the address of an OSC message.
    OscAddPrefix(String),
}

/// `x + d`, brought into the range of MIDI data bytes, 0 to 127.
pub open spec fn shifted(x: u8, d: i16) -> u8 {
    if x + d < 0 {
        0u8
    } else if x + d > 127 {
        127u8
    } else {
        (x + d) as u8
    }
}

/// `x + d`, brought into the range of MIDI data bytes.
pub fn shift(x: u8, d: i16) -> (r: u8)
    ensures
        r == shifted(x, d),
{
    let sum: i32 = x as i32 + d as i32;
    if sum < 0 {
        0
    } else if sum > 127 {
        127
    } else {
        sum as u8
    }
}

impl Modifier {
    /// What the modifier makes of `e`.
    pub open spec fn apply(&self, e: EventView) -> EventView {
        match self {
            Modifier::Port(p) => match e {
                EventView::NoteOn(x) => EventView::NoteOn(
                    NoteOnEventImpl { port: *p, ..x },
                ),
                EventView::NoteOff(x) => EventView::NoteOff(
                    NoteOffEventImpl { port: *p, ..x },
                ),
                EventView::Ctrl(x) => EventView::Ctrl(
                    CtrlEventImpl { port: *p, ..x },
                ),
                EventView::SysEx { port, data } => EventView::SysEx { port: *p, data },
                EventView::Osc { port, addr, args } => EventView::Osc { port: *p, addr, args },
                _ => e,
            },
            Modifier::Channel(c) => match e {
                EventView::NoteOn(x) => EventView::NoteOn(
                    NoteOnEventImpl { channel: *c, ..x },
                ),
                EventView::NoteOff(x) => EventView::NoteOff(
                    NoteOffEventImpl { channel: *c, ..x },
                ),
                EventView::Ctrl(x) => EventView::Ctrl(
                    CtrlEventImpl { channel: *c, ..x },
                ),
                _ => e,
            },
            Modifier::Transpose(t) => match e {
                EventView::NoteOn(x) => EventView::NoteOn(
                    NoteOnEventImpl { note: shifted(x.note, *t), ..x },
                ),
                EventView::NoteOff(x) => EventView::NoteOff(
                    NoteOffEventImpl { note: shifted(x.note, *t), ..x },
                ),
                _ => e,
            },
            Modifier::Key(k) => match e {
                EventView::NoteOn(x) => EventView::NoteOn(
                    NoteOnEventImpl { note: *k, ..x },
                ),
                EventView::NoteOff(x) => EventView::NoteOff(
                    NoteOffEventImpl { note: *k, ..x },
                ),
                _ => e,
            },
            Modifier::Velocity(d) => match e {
                EventView::NoteOn(x) => EventView::NoteOn(
                    NoteOnEventImpl { velocity: shifted(x.velocity, *d), ..x },
                ),
                _ => e,
            },
            Modifier::VelocityFixed(v) => match e {
                EventView::NoteOn(x) => EventView::NoteOn(
                    NoteOnEventImpl { velocity: *v, ..x },
                ),
                _ => e,
            },
            Modifier::CtrlMap(from, to) => match e {
                EventView::Ctrl(x) => if x.ctrl == *from {
                    EventView::Ctrl(CtrlEventImpl { ctrl: *to, ..x })
                } else {
                    e
                },
                _ => e,
            },
            Modifier::OscAddPrefix(prefix) => match e {
                EventView::Osc { port, addr, args } => EventView::Osc {
                    port,
                    addr: prefix@ + addr,
                    args,
                },
                _ => e,
            },
        }
    }

    /// Changes `ev` as the modifier says.
    pub fn modify_single(&self, ev: &mut Event)
        ensures
            final(ev)@ == self.apply(old(ev)@),
    {
        match self {
            Modifier::Port(p) => match ev {
                Event::NoteOn(x) => { x.port = *p; },
                Event::NoteOff(x) => { x.port = *p; },
                Event::Ctrl(x) => { x.port = *p; },
                Event::SysEx(x) => { x.port = *p; },
                Event::Osc(x) => { x.port = *p; },
                _ => {},
            },
            Modifier::Channel(c) => match ev {
                Event::NoteOn(x) => { x.channel = *c; },
                Event::NoteOff(x) => { x.channel = *c; },
                Event::Ctrl(x) => { x.channel = *c; },
                _ => {},
            },
            Modifier::Transpose(t) => match ev {
                Event::NoteOn(x) => { x.note = shift(x.note, *t); },
                Event::NoteOff(x) => { x.note = shift(x.note, *t); },
                _ => {},
            },
            Modifier::Key(k) => match ev {
                Event::NoteOn(x) => { x.note = *k; },
                Event::NoteOff(x) => { x.note = *k; },
                _ => {},
            },
            Modifier::Velocity(d) => match ev {
                Event::NoteOn(x) => { x.velocity = shift(x.velocity, *d); },
                _ => {},
            },
            Modifier::VelocityFixed(v) => match ev {
                Event::NoteOn(x) => { x.velocity = *v; },
                _ => {},
            },
            Modifier::CtrlMap(from, to) => match ev {
                Event::Ctrl(x) => {
                    if x.ctrl == *from {
                        x.ctrl = *to;
                    }
                },
                _ => {},
            },
            Modifier::OscAddPrefix(prefix) => match ev {
                Event::Osc(x) => {
                    let mut addr = prefix.clone();
                    addr.append(x.addr.as_str());
                    x.addr = addr;
                },
                _ => {},
            },
        }
    }

    /// What `run` makes of `evs`: each event changed, in the same place.
    pub open spec fn applied(&self, evs: Seq<EventView>) -> Seq<EventView> {
        Seq::new(evs.len(), |i: int| self.apply(evs[i]))
    }
}

impl FilterTrait for Modifier {
    open spec fn deterministic(&self) -> bool {
        true
    }

    open spec fn run_spec(&self, evs: Seq<EventView>) -> Seq<EventView> {
        self.applied(evs)
    }

    open spec fn run_inverse_spec(&self, evs: Seq<EventView>) -> Seq<EventView> {
        evs
    }

    open spec fn run_init_spec(&self, evs: Seq<EventView>) -> Seq<EventView> {
        evs
    }

    open spec fn run_exit_spec(&self, evs: Seq<EventView>) -> Seq<EventView> {
        evs
    }

    fn run(&self, evs: &mut EventStream)
        ensures
            final(evs)@ == self.run_spec(old(evs)@),
    {
        let mut out = EventStream::empty();
        let mut i: usize = 0;
        while i < evs.len()
            invariant
                i <= evs@.len(),
                *evs == *old(evs),
                out@.len() == i,
                forall|j: int| 0 <= j < i ==> out@[j] == self.apply(evs@[j]),
            decreases evs@.len() - i,
        {
            let mut ev = evs.get(i).clone();
            self.modify_single(&mut ev);
            out.push(ev);
            i += 1;
        }
        assert(out@ =~= self.applied(evs@));
        evs.replace(out);
    }

    fn run_inverse(&self, evs: &mut EventStream)
        ensures
            final(evs)@ == self.run_inverse_spec(old(evs)@),
    {
    }

    fn run_init(&self, evs: &mut EventStream)
        ensures
            final(evs)@ == self.run_init_spec(old(evs)@),
    {
    }

    fn run_exit(&self, evs: &mut EventStream)
        ensures
            final(evs)@ == self.run_exit_spec(old(evs)@),
    {
    }
}

/// Sets the port of every message.
#[allow(non_snake_case)]
pub fn Port(port: usize) -> (r: Modifier)
    ensures
        r == Modifier::Port(port),
{
    Modifier::Port(port)
}

/// Sets the channel of every note and controller change.
#[allow(non_snake_case)]
pub fn Channel(channel: u8) -> (r: Modifier)
    ensures
        r == Modifier::Channel(channel),
{
    Modifier::Channel(channel)
}

/// Moves the key of every note by `semitones`, staying within 0 to 127.
#[allow(non_snake_case)]
pub fn Transpose(semitones: i16) -> (r: Modifier)
    ensures
        r == Modifier::Transpose(semitones),
{
    Modifier::Transpose(semitones)
}

/// Sets the key of every note.
#[allow(non_snake_case)]
pub fn Key(key: u8) -> (r: Modifier)
    ensures
        r == Modifier::Key(key),
{
    Modifier::Key(key)
}

/// Adds `offset` to the velocity of every note-on, staying within 0 to 127.
#[allow(non_snake_case)]
pub fn Velocity(offset: i16) -> (r: Modifier)
    ensures
        r == Modifier::Velocity(offset),
{
    Modifier::Velocity(offset)
}

/// Sets the velocity of every note-on.
#[allow(non_snake_case)]
pub fn VelocityFixed(velocity: u8) -> (r: Modifier)
    ensures
        r == Modifier::VelocityFixed(velocity),
{
    Modifier::VelocityFixed(velocity)
}

/// Renumbers the changes of controller `from` to controller `to`.
#[allow(non_snake_case)]
pub fn CtrlMap(from: u32, to: u32) -> (r: Modifier)
    ensures
        r == Modifier::CtrlMap(from, to),
{
    Modifier::CtrlMap(from, to)
}

/// Puts `prefix` in front of the address of every OSC message.
#[allow(non_snake_case)]
pub fn OscAddPrefix(prefix: String) -> (r: Modifier)
    ensures
        r == Modifier::OscAddPrefix(prefix),
{
    Modifier::OscAddPrefix(prefix)
}

/// The number of semitones in an octave.
pub const OCTAVE: i16 = 12;

/// `octaves` octaves in semitones, kept within what an `i16` holds.
pub open spec fn octaves_in_semitones(octaves: i16) -> i16 {
    if octaves * OCTAVE > i16::MAX {
        i16::MAX
    } else if octaves * OCTAVE < i16::MIN {
        i16::MIN
    } else {
        (octaves * OCTAVE) as i16
    }
}

/// Moves the key of every note by `octaves` octaves, staying within 0 to 127.
#[allow(non_snake_case)]
pub fn TransposeOctave(octaves: i16) -> (r: Modifier)
    ensures
        r == Modifier::Transpose(octaves_in_semitones(octaves)),
        forall|note: u8|
            0 <= note + octaves * OCTAVE <= 127 ==> shifted(note, octaves_in_semitones(octaves))
                == note + octaves * OCTAVE,
{
    let semitones: i32 = octaves as i32 * OCTAVE as i32;
    if semitones > i16::MAX as i32 {
        Modifier::Transpose(i16::MAX)
    } else if semitones < i16::MIN as i32 {
        Modifier::Transpose(i16::MIN)
    } else {
        Modifier::Transpose(semitones as i16)
    }
}

} // verus!
