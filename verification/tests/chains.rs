use rmididings::{
    Chain, Channel, ChannelFilter, ConnectionType, CtrlEvent, Discard, EventStream, Exit,
    FilterChain, FilterTrait, Fork, Init, KeyFilter, KeyRangeFilter, NoneEvent, Not, NoteOn,
    NoteOnEvent, Pass, Patch, Port, Transpose,
};

fn four_notes() -> EventStream {
    EventStream::from(vec![
        NoteOnEvent(0, 0, 60, 20),
        NoteOnEvent(0, 0, 61, 20),
        NoteOnEvent(0, 1, 60, 20),
        NoteOnEvent(0, 1, 61, 20),
    ])
}

#[test]
fn chain_lets_through_what_every_filter_lets_through() {
    let chain = Chain(vec![ChannelFilter(1).into(), KeyFilter(60).into()]);
    let mut evs = four_notes();
    chain.run(&mut evs);
    assert_eq!(evs, NoteOnEvent(0, 1, 60, 20));
}

#[test]
fn fork_lets_through_what_any_filter_lets_through() {
    let fork = Fork(vec![ChannelFilter(1).into(), KeyFilter(60).into()]);
    let mut evs = four_notes();
    fork.run(&mut evs);
    assert_eq!(
        evs,
        vec![NoteOnEvent(0, 1, 60, 20), NoteOnEvent(0, 1, 61, 20), NoteOnEvent(0, 0, 60, 20)]
    );
}

#[test]
fn chain_runs_children_in_order() {
    let chain = Chain(vec![Transpose(100).into(), Transpose(-27).into()]);
    let mut evs = EventStream::from(NoteOnEvent(0, 0, 60, 20));
    chain.run(&mut evs);
    assert_eq!(evs, NoteOnEvent(0, 0, 100, 20));
}

#[test]
fn chain_removes_duplicates_at_the_end() {
    let chain = Chain(vec![NoteOn(60, 20).into(), NoteOn(60, 20).into()]);
    let mut evs = EventStream::empty();
    chain.run(&mut evs);
    assert_eq!(evs, NoteOnEvent(0, 0, 60, 20));
}

#[test]
fn fork_gives_each_child_its_own_copy() {
    let fork = Fork(vec![Channel(1).into(), Channel(2).into(), Discard().into()]);
    let mut evs = EventStream::from(NoteOnEvent(0, 0, 60, 20));
    fork.run(&mut evs);
    assert_eq!(evs, vec![NoteOnEvent(0, 1, 60, 20), NoteOnEvent(0, 2, 60, 20)]);
}

#[test]
fn fork_removes_duplicates_and_keeps_the_first() {
    let fork = Fork(vec![Pass().into(), KeyFilter(61).into(), Pass().into()]);
    let mut evs = EventStream::from(vec![NoteOnEvent(0, 0, 60, 20), NoteOnEvent(0, 0, 61, 20)]);
    fork.run(&mut evs);
    assert_eq!(evs, vec![NoteOnEvent(0, 0, 60, 20), NoteOnEvent(0, 0, 61, 20)]);
}

#[test]
fn empty_chain_and_empty_fork() {
    let mut evs = four_notes();
    Chain(vec![]).run(&mut evs);
    assert_eq!(evs, four_notes());
    Fork(vec![]).run(&mut evs);
    assert!(evs.is_empty());
}

#[test]
fn key_split_lower_half() {
    let patch = Fork(vec![
        Chain(vec![KeyRangeFilter(0, 59).into(), Channel(1).into()]).into(),
        Chain(vec![KeyRangeFilter(60, 127).into(), Channel(2).into()]).into(),
    ]);
    let mut evs = EventStream::from(NoteOnEvent(0, 0, 48, 40));
    patch.run(&mut evs);
    assert_eq!(evs, NoteOnEvent(0, 1, 48, 40));
}

#[test]
fn key_split_upper_half() {
    let patch = Fork(vec![
        Chain(vec![KeyRangeFilter(0, 59).into(), Channel(1).into()]).into(),
        Chain(vec![KeyRangeFilter(60, 127).into(), Channel(2).into()]).into(),
    ]);
    let mut evs = EventStream::from(NoteOnEvent(0, 0, 72, 40));
    patch.run(&mut evs);
    assert_eq!(evs, NoteOnEvent(0, 2, 72, 40));
}

#[test]
fn negated_chain_is_fork_of_negations() {
    let negated_chain = Not(Chain(vec![ChannelFilter(1).into(), KeyFilter(60).into()]).into());
    let fork = Fork(vec![
        Not(ChannelFilter(1).into()).into(),
        Not(KeyFilter(60).into()).into(),
    ]);
    let mut a = four_notes();
    let mut b = four_notes();
    negated_chain.run(&mut a);
    fork.run(&mut b);
    assert_eq!(a, b);
    assert_eq!(
        a,
        vec![NoteOnEvent(0, 0, 60, 20), NoteOnEvent(0, 0, 61, 20), NoteOnEvent(0, 1, 61, 20)]
    );
}

#[test]
fn negated_fork_is_chain_of_negations() {
    let negated_fork = Not(Fork(vec![ChannelFilter(1).into(), KeyFilter(60).into()]).into());
    let chain = Chain(vec![
        Not(ChannelFilter(1).into()).into(),
        Not(KeyFilter(60).into()).into(),
    ]);
    let mut a = four_notes();
    let mut b = four_notes();
    negated_fork.run(&mut a);
    chain.run(&mut b);
    assert_eq!(a, b);
    assert_eq!(a, NoteOnEvent(0, 0, 61, 20));
}

#[test]
fn chain_run_inverse_is_fork_of_inverses() {
    let chain = Chain(vec![ChannelFilter(1).into(), KeyFilter(60).into()]);
    let mut evs = four_notes();
    chain.run_inverse(&mut evs);
    assert_eq!(
        evs,
        vec![NoteOnEvent(0, 0, 60, 20), NoteOnEvent(0, 0, 61, 20), NoteOnEvent(0, 1, 61, 20)]
    );
}

#[test]
fn composite_passes_hooks_to_children_in_order() {
    let fork = Fork(vec![
        Init(NoteOn(1, 1).into()).into(),
        KeyFilter(3).into(),
        Exit(NoteOn(2, 2).into()).into(),
        Init(Chain(vec![NoteOn(3, 3).into(), Port(2).into()]).into()).into(),
    ]);
    let mut evs = EventStream::none();
    fork.run_init(&mut evs);
    assert_eq!(
        evs,
        vec![NoneEvent(), NoteOnEvent(2, 0, 1, 1), NoteOnEvent(2, 0, 3, 3)]
    );
    let mut evs = EventStream::none();
    fork.run_exit(&mut evs);
    assert_eq!(evs, vec![NoneEvent(), NoteOnEvent(0, 0, 2, 2)]);
}

#[test]
fn filter_chain_new_keeps_connection_and_children() {
    let chain = FilterChain::new(ConnectionType::Fork, vec![Pass().into(), Discard().into()]);
    assert_eq!(chain.connection, ConnectionType::Fork);
    assert_eq!(chain.filters.len(), 2);
    assert!(matches!(chain.filters[0], Patch::Pass(_)));
    assert!(matches!(chain.filters[1], Patch::Discard(_)));
}

#[test]
fn composite_output_holds_no_event_twice() {
    let fork = Fork(vec![Pass().into(), Pass().into(), Channel(0).into()]);
    let mut evs = EventStream::from(vec![
        NoteOnEvent(0, 0, 60, 20),
        CtrlEvent(0, 0, 1, 1),
        NoteOnEvent(0, 0, 60, 20),
    ]);
    fork.run(&mut evs);
    assert_eq!(evs, vec![NoteOnEvent(0, 0, 60, 20), CtrlEvent(0, 0, 1, 1)]);
}
