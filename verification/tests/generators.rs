use rmididings::{
    Ctrl, CtrlEvent, EventStream, FilterTrait, NoneEvent, NoteOff, NoteOffEvent, NoteOn,
    NoteOnEvent, SceneSwitchOffset, SceneSwitchOffsetEvent, SubSceneSwitch, SubSceneSwitchEvent,
    SubSceneSwitchOffset, SubSceneSwitchOffsetEvent, SysEx, SysExEvent,
};

#[test]
fn note_on_generates_on_port_and_channel_zero() {
    let mut evs = EventStream::empty();
    NoteOn(60, 20).run(&mut evs);
    assert_eq!(evs, NoteOnEvent(0, 0, 60, 20));
}

#[test]
fn note_off_generates() {
    let mut evs = EventStream::empty();
    NoteOff(65).run(&mut evs);
    assert_eq!(evs, NoteOffEvent(0, 0, 65));
}

#[test]
fn ctrl_generates() {
    let mut evs = EventStream::empty();
    Ctrl(7, 40).run(&mut evs);
    assert_eq!(evs, CtrlEvent(0, 0, 7, 40));
}

#[test]
fn sysex_generates() {
    let mut evs = EventStream::empty();
    SysEx(vec![0xf7, 0xf0]).run(&mut evs);
    assert_eq!(evs, SysExEvent(0, &[0xf7, 0xf0]));
}

#[test]
fn scene_switch_offset_generates() {
    let mut evs = EventStream::empty();
    SceneSwitchOffset(1).run(&mut evs);
    assert_eq!(evs, SceneSwitchOffsetEvent(1));
}

#[test]
fn subscene_switch_generates() {
    let mut evs = EventStream::empty();
    SubSceneSwitch(5).run(&mut evs);
    assert_eq!(evs, SubSceneSwitchEvent(5));
}

#[test]
fn subscene_switch_offset_generates() {
    let mut evs = EventStream::empty();
    SubSceneSwitchOffset(-1).run(&mut evs);
    assert_eq!(evs, SubSceneSwitchOffsetEvent(-1));
}

#[test]
fn generator_appends_to_what_is_there() {
    let mut evs = EventStream::none();
    NoteOn(60, 20).run(&mut evs);
    assert_eq!(evs, vec![NoneEvent(), NoteOnEvent(0, 0, 60, 20)]);
    NoteOn(60, 20).run(&mut evs);
    assert_eq!(
        evs,
        vec![NoneEvent(), NoteOnEvent(0, 0, 60, 20), NoteOnEvent(0, 0, 60, 20)]
    );
}

#[test]
fn generator_under_negation_and_on_hooks_leaves_the_stream_alone() {
    let mut evs = EventStream::none();
    NoteOn(60, 20).run_inverse(&mut evs);
    NoteOn(60, 20).run_init(&mut evs);
    NoteOn(60, 20).run_exit(&mut evs);
    assert_eq!(evs, NoneEvent());
}
