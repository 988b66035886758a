use rmididings::{
    ChannelFilter, ChannelsFilter, CtrlEvent, CtrlFilter, CtrlValueFilter, CtrlValueRangeFilter,
    CtrlValuesFilter, CtrlsFilter, Event, EventStream, EventType, FilterTrait, KeyFilter,
    KeyRangeFilter, KeysFilter, NoneEvent, NoteOffEvent, NoteOnEvent, OscEvent, PortFilter,
    PortsFilter, QuitEvent, SceneSwitchEvent, SubSceneSwitchEvent, SysExEvent, TypeFilter,
    TypesFilter,
};

fn stream(events: Vec<Event>) -> EventStream {
    EventStream::from(events)
}

#[test]
fn type_filter_midi_keeps_note() {
    let filter = TypeFilter(EventType::Midi);
    let mut evs = EventStream::from(NoteOnEvent(0, 0, 60, 20));
    filter.run(&mut evs);
    assert_eq!(evs, NoteOnEvent(0, 0, 60, 20));
}

#[test]
fn type_filter_midi_drops_what_is_not_midi() {
    let filter = TypeFilter(EventType::Midi);
    let mut evs = stream(vec![
        NoneEvent(),
        NoteOnEvent(0, 0, 60, 20),
        NoteOffEvent(0, 0, 60),
        CtrlEvent(0, 0, 7, 20),
        SysExEvent(0, &[0xf0, 0xf7]),
        QuitEvent(),
        SceneSwitchEvent(1),
        OscEvent(0, "/a".to_string(), vec![]),
    ]);
    filter.run(&mut evs);
    assert_eq!(
        evs,
        vec![
            NoteOnEvent(0, 0, 60, 20),
            NoteOffEvent(0, 0, 60),
            CtrlEvent(0, 0, 7, 20),
            SysExEvent(0, &[0xf0, 0xf7]),
        ]
    );
}

#[test]
fn type_filter_note() {
    let filter = TypeFilter(EventType::Note);
    let mut evs = stream(vec![NoteOnEvent(0, 0, 60, 20), CtrlEvent(0, 0, 7, 20)]);
    filter.run(&mut evs);
    assert_eq!(evs, NoteOnEvent(0, 0, 60, 20));
}

#[test]
fn type_filter_note_on() {
    let filter = TypeFilter(EventType::NoteOn);
    let mut evs = stream(vec![NoteOnEvent(0, 0, 60, 20), NoteOffEvent(0, 0, 60)]);
    filter.run(&mut evs);
    assert_eq!(evs, NoteOnEvent(0, 0, 60, 20));
}

#[test]
fn type_filter_note_off() {
    let filter = TypeFilter(EventType::NoteOff);
    let mut evs = stream(vec![NoteOnEvent(0, 0, 60, 20), NoteOffEvent(0, 0, 60)]);
    filter.run(&mut evs);
    assert_eq!(evs, NoteOffEvent(0, 0, 60));
}

#[test]
fn type_filter_ctrl() {
    let filter = TypeFilter(EventType::Ctrl);
    let mut evs = stream(vec![NoteOnEvent(0, 0, 60, 20), CtrlEvent(0, 0, 7, 20)]);
    filter.run(&mut evs);
    assert_eq!(evs, CtrlEvent(0, 0, 7, 20));
}

#[test]
fn type_filter_of_each_remaining_kind() {
    let all = vec![
        NoneEvent(),
        SysExEvent(1, &[1, 2, 3]),
        QuitEvent(),
        SceneSwitchEvent(3),
        SubSceneSwitchEvent(4),
        OscEvent(0, "/x".to_string(), vec![]),
    ];
    let kinds = [
        EventType::Nothing,
        EventType::SysEx,
        EventType::Quit,
        EventType::SceneSwitch,
        EventType::SubSceneSwitch,
        EventType::Osc,
    ];
    for (i, kind) in kinds.iter().enumerate() {
        let mut evs = EventStream::from(&all);
        TypeFilter(*kind).run(&mut evs);
        assert_eq!(evs, all[i].clone());
    }
}

#[test]
fn types_filter_keeps_any_of_the_kinds() {
    let filter = TypesFilter(vec![EventType::Note, EventType::Ctrl]);
    let ev1 = NoteOnEvent(0, 0, 60, 20);
    let ev2 = CtrlEvent(0, 0, 7, 60);
    let ev3 = SceneSwitchEvent(2);
    let mut evs = stream(vec![ev1.clone(), ev2.clone(), ev3]);
    filter.run(&mut evs);
    assert_eq!(evs, vec![ev1, ev2]);
}

#[test]
fn port_filter() {
    let filter = PortFilter(1);
    let ev1 = NoteOnEvent(0, 0, 60, 20);
    let ev2 = NoteOnEvent(1, 0, 60, 20);
    let mut evs = stream(vec![ev1, ev2.clone()]);
    filter.run(&mut evs);
    assert_eq!(evs, ev2);
}

#[test]
fn port_filter_looks_at_osc_and_sysex() {
    let filter = PortFilter(2);
    let mut evs = stream(vec![
        OscEvent(2, "/a".to_string(), vec![]),
        OscEvent(1, "/a".to_string(), vec![]),
        SysExEvent(2, &[9]),
        SysExEvent(0, &[9]),
        QuitEvent(),
    ]);
    filter.run(&mut evs);
    assert_eq!(
        evs,
        vec![OscEvent(2, "/a".to_string(), vec![]), SysExEvent(2, &[9]), QuitEvent()]
    );
}

#[test]
fn ports_filter() {
    let filter = PortsFilter(vec![1, 2]);
    let ev1 = NoteOnEvent(0, 0, 60, 20);
    let ev2 = NoteOnEvent(1, 0, 60, 20);
    let ev3 = NoteOnEvent(2, 0, 60, 20);
    let ev4 = NoteOnEvent(4, 0, 60, 20);
    let mut evs = stream(vec![ev1, ev2.clone(), ev3.clone(), ev4]);
    filter.run(&mut evs);
    assert_eq!(evs, vec![ev2, ev3]);
}

#[test]
fn channel_filter() {
    let filter = ChannelFilter(1);
    let ev1 = NoteOnEvent(0, 0, 60, 20);
    let ev2 = NoteOnEvent(0, 1, 60, 20);
    let mut evs = stream(vec![ev1, ev2.clone()]);
    filter.run(&mut evs);
    assert_eq!(evs, ev2);
}

#[test]
fn channel_filter_has_no_opinion_on_osc() {
    let filter = ChannelFilter(1);
    let osc = OscEvent(0, "/a".to_string(), vec![]);
    let mut evs = stream(vec![osc.clone(), SysExEvent(0, &[1]), NoneEvent()]);
    filter.run(&mut evs);
    assert_eq!(evs, vec![osc, SysExEvent(0, &[1]), NoneEvent()]);
}

#[test]
fn channels_filter() {
    let filter = ChannelsFilter(vec![2, 3]);
    let ev1 = NoteOnEvent(0, 0, 60, 20);
    let ev2 = NoteOnEvent(0, 1, 60, 20);
    let ev3 = NoteOnEvent(0, 2, 60, 20);
    let ev4 = NoteOnEvent(0, 3, 60, 20);
    let mut evs = stream(vec![ev1, ev2, ev3.clone(), ev4.clone()]);
    filter.run(&mut evs);
    assert_eq!(evs, vec![ev3, ev4]);
}

#[test]
fn key_filter() {
    let filter = KeyFilter(60);
    let ev1 = NoteOnEvent(0, 0, 60, 20);
    let ev2 = NoteOnEvent(0, 0, 61, 20);
    let mut evs = stream(vec![ev1.clone(), ev2]);
    filter.run(&mut evs);
    assert_eq!(evs, ev1);
}

#[test]
fn key_filter_lets_controllers_through() {
    let filter = KeyFilter(60);
    let mut evs = stream(vec![CtrlEvent(0, 0, 7, 1), NoteOffEvent(0, 0, 61)]);
    filter.run(&mut evs);
    assert_eq!(evs, CtrlEvent(0, 0, 7, 1));
}

#[test]
fn keys_filter() {
    let filter = KeysFilter(vec![60, 63]);
    let ev1 = NoteOnEvent(0, 0, 60, 20);
    let ev2 = NoteOnEvent(0, 0, 61, 20);
    let ev3 = NoteOnEvent(0, 0, 62, 20);
    let ev4 = NoteOnEvent(0, 0, 63, 20);
    let mut evs = stream(vec![ev1.clone(), ev2, ev3, ev4.clone()]);
    filter.run(&mut evs);
    assert_eq!(evs, vec![ev1, ev4]);
}

#[test]
fn key_range_filter() {
    let filter = KeyRangeFilter(60, 62);
    let ev1 = NoteOnEvent(0, 0, 60, 20);
    let ev2 = NoteOnEvent(0, 0, 61, 20);
    let ev3 = NoteOnEvent(0, 0, 62, 20);
    let ev4 = NoteOnEvent(0, 0, 63, 20);
    let mut evs = stream(vec![ev1.clone(), ev2.clone(), ev3.clone(), ev4]);
    filter.run(&mut evs);
    assert_eq!(evs, vec![ev1, ev2, ev3]);
}

#[test]
fn ctrl_filter() {
    let filter = CtrlFilter(7);
    let ev1 = CtrlEvent(0, 0, 7, 40);
    let ev2 = CtrlEvent(0, 0, 8, 40);
    let mut evs = stream(vec![ev1.clone(), ev2]);
    filter.run(&mut evs);
    assert_eq!(evs, ev1);
}

#[test]
fn ctrls_filter() {
    let filter = CtrlsFilter(vec![7, 8]);
    let ev1 = CtrlEvent(0, 0, 7, 40);
    let ev2 = CtrlEvent(0, 0, 8, 40);
    let ev3 = CtrlEvent(0, 0, 9, 40);
    let mut evs = stream(vec![ev1.clone(), ev2.clone(), ev3]);
    filter.run(&mut evs);
    assert_eq!(evs, vec![ev1, ev2]);
}

#[test]
fn ctrl_value_filter() {
    let filter = CtrlValueFilter(0);
    let ev1 = CtrlEvent(0, 0, 7, 0);
    let ev2 = CtrlEvent(0, 0, 7, 80);
    let mut evs = stream(vec![ev1.clone(), ev2]);
    filter.run(&mut evs);
    assert_eq!(evs, ev1);
}

#[test]
fn ctrl_values_filter() {
    let filter = CtrlValuesFilter(vec![0, 1]);
    let ev1 = CtrlEvent(0, 0, 7, 0);
    let ev2 = CtrlEvent(0, 0, 7, 1);
    let ev3 = CtrlEvent(0, 0, 7, 2);
    let mut evs = stream(vec![ev1.clone(), ev2.clone(), ev3]);
    filter.run(&mut evs);
    assert_eq!(evs, vec![ev1, ev2]);
}

#[test]
fn ctrl_value_range_filter() {
    let filter = CtrlValueRangeFilter(0, 20);
    let ev1 = CtrlEvent(0, 0, 7, 0);
    let ev2 = CtrlEvent(0, 0, 7, 10);
    let ev3 = CtrlEvent(0, 0, 7, 50);
    let mut evs = stream(vec![ev1.clone(), ev2.clone(), ev3]);
    filter.run(&mut evs);
    assert_eq!(evs, vec![ev1, ev2]);
}

#[test]
fn filter_inverse_keeps_what_the_filter_drops() {
    let filter = KeyFilter(60);
    let ev1 = NoteOnEvent(0, 0, 60, 20);
    let ev2 = NoteOnEvent(0, 0, 61, 20);
    let mut evs = stream(vec![ev1, ev2.clone(), CtrlEvent(0, 0, 1, 1)]);
    filter.run_inverse(&mut evs);
    assert_eq!(evs, ev2);
}

#[test]
fn filter_on_single_event_and_its_inverse_are_complements() {
    let filters = vec![KeyFilter(60), ChannelFilter(3), TypeFilter(EventType::Ctrl), PortFilter(0)];
    let events = vec![
        NoteOnEvent(0, 0, 60, 20),
        NoteOnEvent(1, 3, 61, 20),
        CtrlEvent(0, 3, 7, 1),
        QuitEvent(),
    ];
    for f in filters.iter() {
        for e in events.iter() {
            let mut kept = EventStream::from(e);
            f.run(&mut kept);
            let mut dropped = EventStream::from(e);
            f.run_inverse(&mut dropped);
            assert_eq!(kept.len() + dropped.len(), 1);
            if kept.len() == 1 {
                assert_eq!(kept, e.clone());
            } else {
                assert_eq!(dropped, e.clone());
            }
        }
    }
}

#[test]
fn filter_result_is_a_subsequence_of_its_input() {
    let input = vec![
        NoteOnEvent(0, 0, 60, 20),
        CtrlEvent(0, 0, 7, 1),
        NoteOnEvent(0, 0, 61, 20),
        NoteOnEvent(0, 0, 60, 20),
        NoteOffEvent(0, 0, 60),
    ];
    let mut evs = EventStream::from(&input);
    KeyFilter(60).run(&mut evs);
    assert_eq!(
        evs,
        vec![
            NoteOnEvent(0, 0, 60, 20),
            CtrlEvent(0, 0, 7, 1),
            NoteOnEvent(0, 0, 60, 20),
            NoteOffEvent(0, 0, 60),
        ]
    );
}

#[test]
fn filters_leave_the_stream_alone_on_init_and_exit() {
    let mut evs = EventStream::none();
    KeyFilter(60).run_init(&mut evs);
    KeyFilter(60).run_exit(&mut evs);
    TypeFilter(EventType::Note).run_init(&mut evs);
    assert_eq!(evs, NoneEvent());
}
