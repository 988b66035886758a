//! A MIDI and OSC event router: patches built from filters, modifiers and
//! generators, and the scene runtime that drives them.
#![allow(non_snake_case)]
pub mod backend;
pub mod engine;
pub mod event;
pub mod event_stream;
pub mod filter_trait;
pub mod filters;
pub mod generators;
pub mod laws;
pub mod modifiers;
pub mod nodes;
pub mod osc;
pub mod osc_wire;
pub mod patch;
pub mod runner;
pub mod scene;
pub mod strings;

pub use backend::{
    alsa_port_name, osc_protocols, parse_port_spec, Backend, BackendError, ErrorKind,
    NullBackend, PortKind, PortNum, PortSpec,
};
pub use engine::{
    announce, dispatch, dispatch_all, gather, gather_pollfds, offer_port, offer_ports,
    unclaimed_port, BackendType, ConfigArguments, Direction, RMididings,
};
pub use event::{
    CtrlEvent, CtrlEventImpl, Event, NoneEvent, NoneEventImpl, NoteOffEvent, NoteOffEventImpl,
    NoteOnEvent, NoteOnEventImpl, OscEvent, OscEventImpl, OscType, OscTypeTag, QuitEvent,
    QuitEventImpl, SceneNum, SceneOffset, SceneSwitchEvent, SceneSwitchEventImpl,
    SceneSwitchOffsetEvent, SceneSwitchValue, SubSceneSwitchEvent, SubSceneSwitchEventImpl,
    SubSceneSwitchOffsetEvent, SysExEvent, SysExEventImpl,
};
pub use event_stream::EventStream;
pub use filter_trait::FilterTrait;
pub use filters::{
    ChannelFilter, ChannelsFilter, CtrlFilter, CtrlValueFilter, CtrlValueRangeFilter,
    CtrlValuesFilter, CtrlsFilter, EventType, Filter, KeyFilter, KeyRangeFilter, KeysFilter,
    OscAddrFilter, PortFilter, PortsFilter, TypeFilter,
};
pub use generators::{
    Ctrl, Generator, NoteOff, NoteOn, Osc, SceneSwitchOffset, SubSceneSwitch,
    SubSceneSwitchOffset, SysEx,
};
pub use modifiers::{
    Channel, CtrlMap, Key, Modifier, OscAddPrefix, Port, Transpose, TransposeOctave, Velocity,
    VelocityFixed,
};
pub use nodes::{Discard, Panic, Pass, Print, Quit, SceneSwitch};
pub use osc::OscStripPrefix;
pub use osc_wire::{
    choose_out_port, decode_data, decode_data_tcp, frame, get_messages_from_packet,
    split_frames, OscMessage, OscPacket,
};
pub use patch::{
    join, osc_args_match, run_on_event, Chain, ConnectionType, CustomFilter, Exit, FilterChain,
    Fork, Init, Not, OscFn, OscPatch, Patch, ProcessOsc, RunMode, TypesFilter, _Exit, _Init,
    _Not, _ProcessOsc,
};
pub use runner::{emit, RunArguments, Runner, SceneLabel};
pub use scene::{get_scene, Scene};
