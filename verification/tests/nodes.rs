use rmididings::{
    Chain, CtrlEvent, Discard, Event, EventStream, Exit, FilterTrait, Init, KeyFilter, NoneEvent,
    Not, NoteOn, NoteOnEvent, Panic, Pass, Patch, Print, Quit, QuitEvent, SceneSwitch,
    SceneSwitchEvent, SceneSwitchOffsetEvent,
};

#[test]
fn scene_switch_on_placeholder_stream() {
    let mut evs = EventStream::none();
    SceneSwitch(5).run(&mut evs);
    assert_eq!(evs, SceneSwitchEvent(5));
}

#[test]
fn scene_switch_takes_the_place_of_other_events() {
    let mut evs = EventStream::from(vec![
        NoteOnEvent(0, 0, 60, 20),
        SceneSwitchOffsetEvent(1),
        CtrlEvent(0, 0, 1, 1),
    ]);
    SceneSwitch(2).run(&mut evs);
    assert_eq!(evs, vec![SceneSwitchOffsetEvent(1), SceneSwitchEvent(2)]);
}

#[test]
fn scene_switch_does_nothing_without_events() {
    let mut evs = EventStream::empty();
    SceneSwitch(2).run(&mut evs);
    assert!(evs.is_empty());
}

#[test]
fn quit_takes_the_place_of_all_events() {
    let mut evs = EventStream::from(NoteOnEvent(0, 0, 60, 20));
    Quit().run(&mut evs);
    assert_eq!(evs, QuitEvent());
}

#[test]
fn quit_does_nothing_without_events() {
    let mut evs = EventStream::empty();
    Quit().run(&mut evs);
    assert!(evs.is_empty());
}

#[test]
fn pass_keeps_events() {
    let mut evs = EventStream::from(NoteOnEvent(0, 0, 60, 20));
    Pass().run(&mut evs);
    assert_eq!(evs.len(), 1);
}

#[test]
fn not_pass_drops_events() {
    let f = Not(Pass().into());
    let mut evs = EventStream::from(NoteOnEvent(0, 0, 60, 20));
    f.run(&mut evs);
    assert!(evs.is_empty());
}

#[test]
fn discard_drops_events() {
    let mut evs = EventStream::from(NoteOnEvent(0, 0, 60, 20));
    Discard().run(&mut evs);
    assert!(evs.is_empty());
}

#[test]
fn not_discard_keeps_events() {
    let f = Not(Discard().into());
    let mut evs = EventStream::from(NoteOnEvent(0, 0, 60, 20));
    f.run(&mut evs);
    assert_eq!(evs.len(), 1);
}

#[test]
fn panic_emits_32_events() {
    let mut evs = EventStream::empty();
    Panic().run(&mut evs);
    assert_eq!(evs.len(), 32);
}

#[test]
fn panic_silences_and_releases_every_channel() {
    let mut evs = EventStream::empty();
    Panic().run(&mut evs);
    let mut expected: Vec<Event> = Vec::new();
    for c in 0..16u8 {
        expected.push(CtrlEvent(0, c, 123, 0));
    }
    for c in 0..16u8 {
        expected.push(CtrlEvent(0, c, 64, 0));
    }
    assert_eq!(evs, expected);
    for c in 0..16u8 {
        assert!(evs.as_vec().contains(&CtrlEvent(0, c, 123, 0)));
        assert!(evs.as_vec().contains(&CtrlEvent(0, c, 64, 0)));
    }
}

#[test]
fn panic_adds_to_what_is_there() {
    let mut evs = EventStream::from(NoteOnEvent(0, 0, 60, 20));
    Panic().run(&mut evs);
    assert_eq!(evs.len(), 33);
    assert_eq!(*evs.get(0), NoteOnEvent(0, 0, 60, 20));
    assert_eq!(*evs.get(1), CtrlEvent(0, 0, 123, 0));
    assert_eq!(*evs.get(32), CtrlEvent(0, 15, 64, 0));
}

#[test]
fn print_leaves_the_stream_alone() {
    let mut evs = EventStream::from(NoteOnEvent(0, 0, 60, 20));
    Print().run(&mut evs);
    assert_eq!(evs, NoteOnEvent(0, 0, 60, 20));
}

#[test]
fn print_has_a_line_for_a_stream_with_events_only() {
    let evs = EventStream::from(NoteOnEvent(0, 0, 60, 20));
    let line = Print().text(&evs);
    assert!(line.is_some());
    assert!(line.unwrap().contains("NoteOn"));
    assert!(Print().text(&EventStream::empty()).is_none());
}

#[test]
fn not_key_filter() {
    let filter = Not(KeyFilter(60).into());
    let ev1 = NoteOnEvent(0, 0, 60, 20);
    let ev2 = NoteOnEvent(0, 0, 61, 20);
    let mut evs = EventStream::from(vec![ev1, ev2.clone()]);
    filter.run(&mut evs);
    assert_eq!(evs, ev2);
}

#[test]
fn not_not_key_filter() {
    let f1 = KeyFilter(60);
    let f2 = Not(KeyFilter(60).into());
    let f3 = Not(Not(KeyFilter(60).into()).into());

    let mut evs = EventStream::from(NoteOnEvent(0, 0, 60, 20));
    f1.run(&mut evs);
    assert!(!evs.is_empty());

    let mut evs = EventStream::from(NoteOnEvent(0, 0, 60, 20));
    f2.run(&mut evs);
    assert!(evs.is_empty());

    let mut evs = EventStream::from(NoteOnEvent(0, 0, 60, 20));
    f3.run(&mut evs);
    assert!(!evs.is_empty());
}

#[test]
fn double_negation_does_what_the_node_does() {
    let input = vec![
        NoteOnEvent(0, 0, 60, 20),
        NoteOnEvent(0, 1, 61, 20),
        CtrlEvent(0, 0, 1, 1),
        NoteOnEvent(0, 0, 60, 20),
    ];
    let plain: Patch = Chain(vec![KeyFilter(60).into(), Pass().into()]).into();
    let twice: Patch = Not(
        Not(Chain(vec![KeyFilter(60).into(), Pass().into()]).into()).into(),
    )
    .into();
    let mut a = EventStream::from(&input);
    let mut b = EventStream::from(&input);
    plain.run(&mut a);
    twice.run(&mut b);
    assert_eq!(a, b);
    assert_eq!(a, vec![NoteOnEvent(0, 0, 60, 20), CtrlEvent(0, 0, 1, 1)]);
    let mut a = EventStream::from(&input);
    let mut b = EventStream::from(&input);
    plain.run_inverse(&mut a);
    twice.run_inverse(&mut b);
    assert_eq!(a, b);
    assert_eq!(a, NoteOnEvent(0, 1, 61, 20));
}

#[test]
fn init_runs_on_init_only() {
    let node = Init(NoteOn(60, 20).into());
    let mut evs = EventStream::none();
    node.run(&mut evs);
    node.run_inverse(&mut evs);
    node.run_exit(&mut evs);
    assert_eq!(evs, NoneEvent());
    node.run_init(&mut evs);
    assert_eq!(evs, vec![NoneEvent(), NoteOnEvent(0, 0, 60, 20)]);
}

#[test]
fn exit_runs_on_exit_only() {
    let node = Exit(NoteOn(60, 20).into());
    let mut evs = EventStream::none();
    node.run(&mut evs);
    node.run_inverse(&mut evs);
    node.run_init(&mut evs);
    assert_eq!(evs, NoneEvent());
    node.run_exit(&mut evs);
    assert_eq!(evs, vec![NoneEvent(), NoteOnEvent(0, 0, 60, 20)]);
}

#[test]
fn negation_does_not_pass_hooks_on() {
    let node = Not(Init(NoteOn(60, 20).into()).into());
    let mut evs = EventStream::none();
    node.run_init(&mut evs);
    node.run_exit(&mut evs);
    assert_eq!(evs, NoneEvent());
}
