use rmididings::{
    CtrlEvent, Event, EventStream, NoneEvent, NoteOffEvent, NoteOnEvent, OscEvent, OscType,
    QuitEvent, SceneSwitchEvent, SceneSwitchOffsetEvent, SceneSwitchValue, SubSceneSwitchEvent,
    SysExEvent,
};

#[test]
fn empty_stream_has_no_events() {
    let evs = EventStream::empty();
    assert!(evs.is_empty());
    assert_eq!(evs.len(), 0);
    assert_eq!(evs, EventStream::default());
}

#[test]
fn none_stream_holds_the_placeholder() {
    let evs = EventStream::none();
    assert_eq!(evs.len(), 1);
    assert_eq!(evs, NoneEvent());
    assert_eq!(*evs.get(0), Event::default());
}

#[test]
fn set_and_into_vec() {
    let mut evs = EventStream::from(vec![NoteOnEvent(0, 0, 1, 1), NoteOnEvent(0, 0, 2, 2)]);
    evs.set(1, QuitEvent());
    assert_eq!(evs, vec![NoteOnEvent(0, 0, 1, 1), QuitEvent()]);
    assert_eq!(evs.as_vec().len(), 2);
    assert_eq!(evs.into_vec(), vec![NoteOnEvent(0, 0, 1, 1), QuitEvent()]);
}

#[test]
fn push_pop_remove_clear() {
    let mut evs = EventStream::empty();
    evs.push(NoteOnEvent(0, 0, 1, 1));
    evs.push(NoteOnEvent(0, 0, 2, 2));
    evs.push(NoteOnEvent(0, 0, 3, 3));
    assert_eq!(evs.len(), 3);
    assert_eq!(evs.remove(1), NoteOnEvent(0, 0, 2, 2));
    assert_eq!(evs, vec![NoteOnEvent(0, 0, 1, 1), NoteOnEvent(0, 0, 3, 3)]);
    assert_eq!(evs.pop(), Some(NoteOnEvent(0, 0, 3, 3)));
    assert_eq!(evs.pop(), Some(NoteOnEvent(0, 0, 1, 1)));
    assert_eq!(evs.pop(), None);
    evs.push(QuitEvent());
    evs.clear();
    assert!(evs.is_empty());
}

#[test]
fn append_extend_replace() {
    let mut evs = EventStream::from(NoteOnEvent(0, 0, 1, 1));
    let mut more = vec![NoteOnEvent(0, 0, 2, 2), NoteOnEvent(0, 0, 3, 3)];
    evs.append(&mut more);
    assert!(more.is_empty());
    evs.extend(EventStream::from(QuitEvent()));
    assert_eq!(
        evs,
        vec![
            NoteOnEvent(0, 0, 1, 1),
            NoteOnEvent(0, 0, 2, 2),
            NoteOnEvent(0, 0, 3, 3),
            QuitEvent(),
        ]
    );
    evs.replace(EventStream::from(CtrlEvent(0, 0, 1, 1)));
    assert_eq!(evs, CtrlEvent(0, 0, 1, 1));
}

#[test]
fn retain_keeps_what_the_predicate_accepts() {
    let mut evs = EventStream::from(vec![
        NoteOnEvent(0, 0, 1, 1),
        QuitEvent(),
        NoteOnEvent(0, 0, 3, 3),
        CtrlEvent(0, 0, 1, 1),
    ]);
    evs.retain(|e| matches!(e, Event::NoteOn(_)));
    assert_eq!(evs, vec![NoteOnEvent(0, 0, 1, 1), NoteOnEvent(0, 0, 3, 3)]);
}

#[test]
fn dedup_keeps_first_occurrences() {
    let a = NoteOnEvent(0, 0, 1, 1);
    let b = CtrlEvent(0, 0, 1, 1);
    let c = QuitEvent();
    let mut evs = EventStream::from(vec![
        a.clone(),
        b.clone(),
        a.clone(),
        c.clone(),
        b.clone(),
        a.clone(),
    ]);
    evs.dedup();
    assert_eq!(evs, vec![a, b, c]);
}

#[test]
fn dedup_removes_duplicates_that_are_not_adjacent_too() {
    let mut evs = EventStream::from(vec![
        NoteOnEvent(0, 0, 1, 1),
        NoteOnEvent(0, 0, 2, 1),
        NoteOnEvent(0, 0, 1, 1),
    ]);
    evs.dedup();
    assert_eq!(evs, vec![NoteOnEvent(0, 0, 1, 1), NoteOnEvent(0, 0, 2, 1)]);
}

#[test]
fn dedup_twice_is_dedup_once() {
    let mut once = EventStream::from(vec![
        NoteOnEvent(0, 0, 1, 1),
        NoteOnEvent(0, 0, 1, 1),
        QuitEvent(),
        NoteOnEvent(0, 0, 1, 1),
        QuitEvent(),
    ]);
    once.dedup();
    let mut twice = once.clone();
    twice.dedup();
    assert_eq!(once, twice);
    assert_eq!(once, vec![NoteOnEvent(0, 0, 1, 1), QuitEvent()]);
}

#[test]
fn dedup_of_empty_and_single() {
    let mut evs = EventStream::empty();
    evs.dedup();
    assert!(evs.is_empty());
    let mut evs = EventStream::from(QuitEvent());
    evs.dedup();
    assert_eq!(evs, QuitEvent());
}

#[test]
fn dedup_tells_osc_floats_apart_by_their_bits() {
    let half = OscType::Float(0.5f32.to_bits());
    let mut evs = EventStream::from(vec![
        OscEvent(0, "/a".to_string(), vec![half.clone()]),
        OscEvent(0, "/a".to_string(), vec![OscType::Float(0.5f32.to_bits())]),
        OscEvent(0, "/a".to_string(), vec![OscType::Float(0.25f32.to_bits())]),
        OscEvent(0, "/a".to_string(), vec![OscType::Double(0.5f64.to_bits())]),
    ]);
    evs.dedup();
    assert_eq!(
        evs,
        vec![
            OscEvent(0, "/a".to_string(), vec![half]),
            OscEvent(0, "/a".to_string(), vec![OscType::Float(0.25f32.to_bits())]),
            OscEvent(0, "/a".to_string(), vec![OscType::Double(0.5f64.to_bits())]),
        ]
    );
}

#[test]
fn stream_from_events() {
    let ev = NoteOnEvent(0, 0, 1, 1);
    assert_eq!(EventStream::from(ev.clone()), ev.clone());
    assert_eq!(EventStream::from(&ev), ev.clone());
    assert_eq!(EventStream::from(Some(ev.clone())), ev.clone());
    assert!(EventStream::from(None::<Event>).is_empty());
    assert_eq!(EventStream::from(Some(&ev)), ev.clone());
    assert!(EventStream::from(None::<&Event>).is_empty());
    let quit = QuitEvent();
    assert_eq!(EventStream::from(vec![&ev, &quit, &ev]), vec![ev.clone(), QuitEvent(), ev.clone()]);
    let list = vec![ev.clone(), QuitEvent()];
    assert_eq!(EventStream::from(&list), list.clone());
    assert_eq!(EventStream::from(list.clone()), list);
}

#[test]
fn stream_equals_single_event_only_when_it_holds_it_alone() {
    let ev = NoteOnEvent(0, 0, 1, 1);
    assert!(EventStream::from(ev.clone()) == ev);
    assert!(EventStream::from(vec![ev.clone(), ev.clone()]) != ev);
    assert!(EventStream::empty() != ev);
    assert!(EventStream::from(QuitEvent()) != ev);
}

#[test]
fn events_are_equal_when_all_their_parts_are() {
    assert_eq!(NoteOnEvent(1, 2, 3, 4), NoteOnEvent(1, 2, 3, 4));
    assert_ne!(NoteOnEvent(1, 2, 3, 4), NoteOnEvent(0, 2, 3, 4));
    assert_ne!(NoteOnEvent(1, 2, 3, 4), NoteOnEvent(1, 0, 3, 4));
    assert_ne!(NoteOnEvent(1, 2, 3, 4), NoteOnEvent(1, 2, 0, 4));
    assert_ne!(NoteOnEvent(1, 2, 3, 4), NoteOnEvent(1, 2, 3, 0));
    assert_ne!(NoteOffEvent(1, 2, 3), NoteOnEvent(1, 2, 3, 0));
    assert_eq!(CtrlEvent(1, 2, 3, -4), CtrlEvent(1, 2, 3, -4));
    assert_ne!(CtrlEvent(1, 2, 3, -4), CtrlEvent(1, 2, 3, 4));
    assert_eq!(SysExEvent(1, &[1, 2]), SysExEvent(1, &[1, 2]));
    assert_ne!(SysExEvent(1, &[1, 2]), SysExEvent(1, &[1, 2, 3]));
    assert_ne!(SysExEvent(1, &[1, 2]), SysExEvent(1, &[1, 3]));
    assert_ne!(SceneSwitchEvent(1), SceneSwitchOffsetEvent(1));
    assert_ne!(SceneSwitchEvent(1), SubSceneSwitchEvent(1));
    assert_eq!(QuitEvent(), QuitEvent());
    assert_ne!(QuitEvent(), NoneEvent());
}

#[test]
fn osc_events_are_equal_when_address_and_arguments_are() {
    let args = || {
        vec![
            OscType::Int(5),
            OscType::String("yes".to_string()),
            OscType::Array(vec![OscType::Bool(true), OscType::Nil, OscType::Blob(vec![1, 2])]),
        ]
    };
    assert_eq!(OscEvent(0, "/a".to_string(), args()), OscEvent(0, "/a".to_string(), args()));
    assert_ne!(OscEvent(0, "/a".to_string(), args()), OscEvent(0, "/b".to_string(), args()));
    assert_ne!(OscEvent(0, "/a".to_string(), args()), OscEvent(1, "/a".to_string(), args()));
    let mut other = args();
    other[2] = OscType::Array(vec![OscType::Bool(true), OscType::Nil, OscType::Blob(vec![1, 3])]);
    assert_ne!(OscEvent(0, "/a".to_string(), args()), OscEvent(0, "/a".to_string(), other));
    assert_ne!(OscEvent(0, "/a".to_string(), args()), OscEvent(0, "/a".to_string(), vec![]));
    assert_ne!(OscType::Int(1), OscType::Long(1));
    assert_ne!(OscType::Nil, OscType::Inf);
    assert_eq!(OscType::Time(1, 2), OscType::Time(1, 2));
    assert_ne!(OscType::Color(1, 2, 3, 4), OscType::Midi(1, 2, 3, 4));
}

#[test]
fn clones_are_equal_to_their_originals() {
    let ev = OscEvent(
        3,
        "/deep".to_string(),
        vec![OscType::Array(vec![OscType::Array(vec![OscType::Char('x')])])],
    );
    assert_eq!(ev.clone(), ev);
    let evs = EventStream::from(vec![ev, SysExEvent(0, &[1, 2, 3])]);
    assert_eq!(evs.clone(), evs);
}

#[test]
fn default_switch_target_is_no_move() {
    assert_eq!(SceneSwitchValue::default(), SceneSwitchValue::Offset(0));
}
