use rmididings::{
    Channel, CtrlEvent, CtrlMap, EventStream, FilterTrait, Key, Modifier, NoteOffEvent,
    NoteOnEvent, OscEvent, Port, QuitEvent, SysExEvent, Transpose, TransposeOctave, Velocity,
    VelocityFixed,
};

#[test]
fn port_sets_port() {
    let mut evs = EventStream::from(NoteOnEvent(0, 0, 60, 20));
    Port(1).run(&mut evs);
    assert_eq!(evs, NoteOnEvent(1, 0, 60, 20));
}

#[test]
fn port_sets_port_of_every_message_kind() {
    let mut evs = EventStream::from(vec![
        NoteOffEvent(0, 0, 60),
        CtrlEvent(0, 0, 1, 2),
        SysExEvent(0, &[1]),
        OscEvent(0, "/a".to_string(), vec![]),
        QuitEvent(),
    ]);
    Port(3).run(&mut evs);
    assert_eq!(
        evs,
        vec![
            NoteOffEvent(3, 0, 60),
            CtrlEvent(3, 0, 1, 2),
            SysExEvent(3, &[1]),
            OscEvent(3, "/a".to_string(), vec![]),
            QuitEvent(),
        ]
    );
}

#[test]
fn channel_sets_channel() {
    let mut evs = EventStream::from(NoteOnEvent(0, 0, 60, 20));
    Channel(1).run(&mut evs);
    assert_eq!(evs, NoteOnEvent(0, 1, 60, 20));
}

#[test]
fn transpose_up() {
    let mut evs = EventStream::from(NoteOnEvent(0, 0, 60, 20));
    Transpose(4).run(&mut evs);
    assert_eq!(evs, NoteOnEvent(0, 0, 64, 20));
}

#[test]
fn transpose_down() {
    let mut evs = EventStream::from(NoteOnEvent(0, 0, 60, 20));
    Transpose(-4).run(&mut evs);
    assert_eq!(evs, NoteOnEvent(0, 0, 56, 20));
}

#[test]
fn transpose_stays_within_zero_and_127() {
    let mut evs = EventStream::from(vec![NoteOnEvent(0, 0, 120, 20), NoteOffEvent(0, 0, 3)]);
    Transpose(10).run(&mut evs);
    assert_eq!(evs, vec![NoteOnEvent(0, 0, 127, 20), NoteOffEvent(0, 0, 13)]);
    Transpose(-20).run(&mut evs);
    assert_eq!(evs, vec![NoteOnEvent(0, 0, 107, 20), NoteOffEvent(0, 0, 0)]);
    Transpose(i16::MAX).run(&mut evs);
    assert_eq!(evs, vec![NoteOnEvent(0, 0, 127, 20), NoteOffEvent(0, 0, 127)]);
    Transpose(i16::MIN).run(&mut evs);
    assert_eq!(evs, vec![NoteOnEvent(0, 0, 0, 20), NoteOffEvent(0, 0, 0)]);
}

#[test]
fn transpose_octave_up() {
    let mut evs = EventStream::from(NoteOnEvent(0, 0, 60, 20));
    TransposeOctave(1).run(&mut evs);
    assert_eq!(evs, NoteOnEvent(0, 0, 72, 20));
}

#[test]
fn transpose_octave_down() {
    let mut evs = EventStream::from(NoteOnEvent(0, 0, 60, 20));
    TransposeOctave(-1).run(&mut evs);
    assert_eq!(evs, NoteOnEvent(0, 0, 48, 20));
}

#[test]
fn transpose_octave_is_twelve_semitones() {
    match TransposeOctave(3) {
        Modifier::Transpose(t) => assert_eq!(t, 36),
        _ => panic!("not a transposition"),
    }
    match TransposeOctave(i16::MAX) {
        Modifier::Transpose(t) => assert_eq!(t, i16::MAX),
        _ => panic!("not a transposition"),
    }
    match TransposeOctave(i16::MIN) {
        Modifier::Transpose(t) => assert_eq!(t, i16::MIN),
        _ => panic!("not a transposition"),
    }
}

#[test]
fn key_sets_key() {
    let mut evs = EventStream::from(NoteOnEvent(0, 0, 60, 20));
    Key(68).run(&mut evs);
    assert_eq!(evs, NoteOnEvent(0, 0, 68, 20));
}

#[test]
fn velocity_up() {
    let mut evs = EventStream::from(NoteOnEvent(0, 0, 60, 40));
    Velocity(10).run(&mut evs);
    assert_eq!(evs, NoteOnEvent(0, 0, 60, 50));
}

#[test]
fn velocity_down() {
    let mut evs = EventStream::from(NoteOnEvent(0, 0, 60, 40));
    Velocity(-10).run(&mut evs);
    assert_eq!(evs, NoteOnEvent(0, 0, 60, 30));
}

#[test]
fn velocity_stays_within_zero_and_127() {
    let mut evs = EventStream::from(NoteOnEvent(0, 0, 60, 40));
    Velocity(-50).run(&mut evs);
    assert_eq!(evs, NoteOnEvent(0, 0, 60, 0));
    Velocity(300).run(&mut evs);
    assert_eq!(evs, NoteOnEvent(0, 0, 60, 127));
}

#[test]
fn velocity_leaves_note_off_alone() {
    let mut evs = EventStream::from(NoteOffEvent(0, 0, 60));
    Velocity(10).run(&mut evs);
    VelocityFixed(1).run(&mut evs);
    assert_eq!(evs, NoteOffEvent(0, 0, 60));
}

#[test]
fn velocity_fixed_sets_velocity() {
    let mut evs = EventStream::from(NoteOnEvent(0, 0, 60, 40));
    VelocityFixed(10).run(&mut evs);
    assert_eq!(evs, NoteOnEvent(0, 0, 60, 10));
}

#[test]
fn ctrl_map_renumbers() {
    let mut evs = EventStream::from(vec![CtrlEvent(0, 0, 7, 50), CtrlEvent(0, 0, 9, 50)]);
    CtrlMap(7, 8).run(&mut evs);
    assert_eq!(evs, vec![CtrlEvent(0, 0, 8, 50), CtrlEvent(0, 0, 9, 50)]);
}

#[test]
fn modifier_under_negation_leaves_the_stream_alone() {
    let mut evs = EventStream::from(NoteOnEvent(0, 0, 60, 40));
    Transpose(4).run_inverse(&mut evs);
    Port(3).run_inverse(&mut evs);
    assert_eq!(evs, NoteOnEvent(0, 0, 60, 40));
}

#[test]
fn modifier_keeps_the_number_of_events() {
    let mut evs = EventStream::from(vec![
        NoteOnEvent(0, 0, 60, 40),
        QuitEvent(),
        NoteOnEvent(0, 0, 60, 40),
    ]);
    Channel(5).run(&mut evs);
    assert_eq!(
        evs,
        vec![NoteOnEvent(0, 5, 60, 40), QuitEvent(), NoteOnEvent(0, 5, 60, 40)]
    );
}
