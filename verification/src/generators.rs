//! Generators: nodes that add one event of their own to the stream.
use crate::event::{
    bytes_clone, osc_args_clone, osc_args_view, CtrlEventImpl, Event, EventView, NoteOffEventImpl,
    NoteOnEventImpl, OscEventImpl, OscType, SceneNum, SceneOffset, SceneSwitchEventImpl,
    SceneSwitchValue, SubSceneSwitchEventImpl, SysExEventImpl,
};
use crate::event_stream::EventStream;
use crate::filter_trait::FilterTrait;
use vstd::prelude::*;

verus! {

/// A generator: the description of one event.
///
/// Messages are made on port 0 and channel 0; a modifier behind the generator
/// sends them elsewhere.
#[derive(Debug)]
pub enum Generator {
    /// A note-on with this key and velocity.
    NoteOn(u8, u8),
    /// A note-off with this key.
    NoteOff(u8),
    /// A change of this controller to this value.
    Ctrl(u32, i32),
    /// A system exclusive message with these bytes.
    SysEx(Vec<u8>),
    /// An OSC message with this address and these arguments.
    Osc(String, Vec<OscType>),
    /// A switch to the scene this many places after the current one.
    SceneSwitchOffset(SceneOffset),
    /// A switch to this sub-scene.
    SubSceneSwitch(SceneNum),
    /// A switch to the sub-scene this many places after the current one.
    SubSceneSwitchOffset(SceneOffset),
}

impl Generator {
    /// The event that the generator makes.
    pub open spec fn event(&self) -> EventView {
        match self {
            Generator::NoteOn(note, velocity) => EventView::NoteOn(
                NoteOnEventImpl { port: 0, channel: 0, note: *note, velocity: *velocity },
            ),
            Generator::NoteOff(note) => EventView::NoteOff(
                NoteOffEventImpl { port: 0, channel: 0, note: *note },
            ),
            Generator::Ctrl(ctrl, value) => EventView::Ctrl(
                CtrlEventImpl { port: 0, channel: 0, ctrl: *ctrl, value: *value },
            ),
            Generator::SysEx(data) => EventView::SysEx { port: 0, data: data@ },
            Generator::Osc(addr, args) => EventView::Osc {
                port: 0,
                addr: addr@,
                args: osc_args_view(args@),
            },
            Generator::SceneSwitchOffset(d) => EventView::SceneSwitch(SceneSwitchValue::Offset(*d)),
            Generator::SubSceneSwitch(n) => EventView::SubSceneSwitch(SceneSwitchValue::Fixed(*n)),
            Generator::SubSceneSwitchOffset(d) => EventView::SubSceneSwitch(
                SceneSwitchValue::Offset(*d),
            ),
        }
    }

    /// Makes the generator's event.
    pub fn generate_single(&self) -> (ev: Event)
        ensures
            ev@ == self.event(),
    {
        match self {
            Generator::NoteOn(note, velocity) => Event::NoteOn(
                NoteOnEventImpl { port: 0, channel: 0, note: *note, velocity: *velocity },
            ),
            Generator::NoteOff(note) => Event::NoteOff(
                NoteOffEventImpl { port: 0, channel: 0, note: *note },
            ),
            Generator::Ctrl(ctrl, value) => Event::Ctrl(
                CtrlEventImpl { port: 0, channel: 0, ctrl: *ctrl, value: *value },
            ),
            Generator::SysEx(data) => Event::SysEx(
                SysExEventImpl { port: 0, data: bytes_clone(data) },
            ),
            Generator::Osc(addr, args) => Event::Osc(
                OscEventImpl { port: 0, addr: addr.clone(), args: osc_args_clone(args) },
            ),
            Generator::SceneSwitchOffset(d) => Event::SceneSwitch(
                SceneSwitchEventImpl { scene: SceneSwitchValue::Offset(*d) },
            ),
            Generator::SubSceneSwitch(n) => Event::SubSceneSwitch(
                SubSceneSwitchEventImpl { subscene: SceneSwitchValue::Fixed(*n) },
            ),
            Generator::SubSceneSwitchOffset(d) => Event::SubSceneSwitch(
                SubSceneSwitchEventImpl { subscene: SceneSwitchValue::Offset(*d) },
            ),
        }
    }
}

impl FilterTrait for Generator {
    open spec fn deterministic(&self) -> bool {
        true
    }

    open spec fn run_spec(&self, evs: Seq<EventView>) -> Seq<EventView> {
        evs.push(self.event())
    }

    open spec fn run_inverse_spec(&self, evs: Seq<EventView>) -> Seq<EventView> {
        evs
    }

    open spec fn run_init_spec(&self, evs: Seq<EventView>) -> Seq<EventView> {
        evs
    }

    open spec fn run_exit_spec(&self, evs: Seq<EventView>) -> Seq<EventView> {
        evs
    }

    fn run(&self, evs: &mut EventStream)
        ensures
            final(evs)@ == self.run_spec(old(evs)@),
    {
        evs.push(self.generate_single());
    }

    fn run_inverse(&self, evs: &mut EventStream)
        ensures
            final(evs)@ == self.run_inverse_spec(old(evs)@),
    {
    }

    fn run_init(&self, evs: &mut EventStream)
        ensures
            final(evs)@ == self.run_init_spec(old(evs)@),
    {
    }

    fn run_exit(&self, evs: &mut EventStream)
        ensures
            final(evs)@ == self.run_exit_spec(old(evs)@),
    {
    }
}

/// Adds a note-on with this key and velocity.
#[allow(non_snake_case)]
pub fn NoteOn(note: u8, velocity: u8) -> (r: Generator)
    ensures
        r == Generator::NoteOn(note, velocity),
{
    Generator::NoteOn(note, velocity)
}

/// Adds a note-off with this key.
#[allow(non_snake_case)]
pub fn NoteOff(note: u8) -> (r: Generator)
    ensures
        r == Generator::NoteOff(note),
{
    Generator::NoteOff(note)
}

/// Adds a change of controller `ctrl` to `value`.
#[allow(non_snake_case)]
pub fn Ctrl(ctrl: u32, value: i32) -> (r: Generator)
    ensures
        r == Generator::Ctrl(ctrl, value),
{
    Generator::Ctrl(ctrl, value)
}

/// Adds a system exclusive message with these bytes.
#[allow(non_snake_case)]
pub fn SysEx(data: Vec<u8>) -> (r: Generator)
    ensures
        r == Generator::SysEx(data),
{
    Generator::SysEx(data)
}

/// Adds an OSC message with this address and these arguments.
#[allow(non_snake_case)]
pub fn Osc(addr: String, args: Vec<OscType>) -> (r: Generator)
    ensures
        r == Generator::Osc(addr, args),
{
    Generator::Osc(addr, args)
}

/// Adds a switch to the scene `offset` places after the current one.
#[allow(non_snake_case)]
pub fn SceneSwitchOffset(offset: SceneOffset) -> (r: Generator)
    ensures
        r == Generator::SceneSwitchOffset(offset),
{
    Generator::SceneSwitchOffset(offset)
}

/// Adds a switch to this sub-scene.
#[allow(non_snake_case)]
pub fn SubSceneSwitch(subscene: SceneNum) -> (r: Generator)
    ensures
        r == Generator::SubSceneSwitch(subscene),
{
    Generator::SubSceneSwitch(subscene)
}

/// Adds a switch to the sub-scene `offset` places after the current one.
#[allow(non_snake_case)]
pub fn SubSceneSwitchOffset(offset: SceneOffset) -> (r: Generator)
    ensures
        r == Generator::SubSceneSwitchOffset(offset),
{
    Generator::SubSceneSwitchOffset(offset)
}

} // verus!
