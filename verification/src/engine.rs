//! The engine: the transports in use, the offsets between the numbers of the
//! user and those of the transports, and one turn of the main loop.
use crate::backend::{Backend, BackendError, ErrorKind, PortNum};
use crate::event::{Event, EventView, SceneNum};
use crate::event_stream::EventStream;
use crate::runner::{RunArguments, Runner, RunnerView, initial_subscene_nums};
use vstd::prelude::*;
use vstd::string::StringExecFns;

verus! {

/// The MIDI transport to use.
#[derive(Debug, Copy, Clone, PartialEq, Eq, Hash, Structural)]
pub enum BackendType {
    Null,
    Alsa,
}

/// The settings of the engine.
pub struct ConfigArguments {
    pub backend: BackendType,
    /// The name under which the engine shows to its peers.
    pub client_name: String,
    /// The input ports: for each its name, and the peer to connect it to or
    /// the empty string. The place in the list is the number of the port.
    pub in_ports: Vec<(String, String)>,
    /// The output ports, in the same form.
    pub out_ports: Vec<(String, String)>,
    /// The number that the user gives to the first port and the first channel.
    pub data_offset: u8,
    /// The number that the user gives to the first scene.
    pub scene_offset: SceneNum,
    /// The scene to begin with, counted from 0.
    pub initial_scene: SceneNum,
    /// How long to wait after the ports are made, in milliseconds.
    pub start_delay_ms: u64,
}

impl ConfigArguments {
    /// ALSA as the transport, the name "RMididings", no ports, counting
    /// from 1, the first scene, no delay.
    pub fn default() -> (args: Self)
        ensures
            args.backend == BackendType::Alsa,
            args.client_name@ == "RMididings"@,
            args.in_ports@.len() == 0,
            args.out_ports@.len() == 0,
            args.data_offset == 1,
            args.scene_offset == 1,
            args.initial_scene == 0,
            args.start_delay_ms == 0,
    {
        ConfigArguments {
            backend: BackendType::Alsa,
            client_name: String::from_str("RMididings"),
            in_ports: Vec::new(),
            out_ports: Vec::new(),
            data_offset: 1,
            scene_offset: 1,
            initial_scene: 0,
            start_delay_ms: 0,
        }
    }
}

/// The direction of a port.
#[derive(Debug, Copy, Clone, PartialEq, Eq, Hash, Structural)]
pub enum Direction {
    In,
    Out,
}

/// Holds of every list of transports. It marks the lists that the
/// definitions below speak of as "there is a list such that".
pub open spec fn some_transports(bs: Seq<Box<dyn Backend>>) -> bool {
    true
}

/// Holds of every number. It marks the numbers that the definitions below
/// speak of as "there is a number such that".
pub open spec fn some_number(n: int) -> bool {
    true
}

/// Whether `r` can be the answer of the transport at place `k` of `bs` when
/// port `port` of the name `name` is offered to it.
pub open spec fn claims(
    bs: Seq<Box<dyn Backend>>,
    k: int,
    direction: Direction,
    port: PortNum,
    name: Seq<char>,
    r: Result<bool, BackendError>,
) -> bool {
    match direction {
        Direction::In => bs[k].creates_in(port, name, r),
        Direction::Out => bs[k].creates_out(port, name, r),
    }
}

/// Whether `r` can be the answer of the transport at place `k` of `bs` when
/// it is to connect port `port` to `peer`.
pub open spec fn connects(
    bs: Seq<Box<dyn Backend>>,
    k: int,
    direction: Direction,
    port: PortNum,
    peer: Seq<char>,
    r: Result<bool, BackendError>,
) -> bool {
    match direction {
        Direction::In => bs[k].connects_in(port, peer, r),
        Direction::Out => bs[k].connects_out(port, peer, r),
    }
}

/// Whether each of the first `k` transports can have declined the port.
pub open spec fn none_claimed(
    bs: Seq<Box<dyn Backend>>,
    direction: Direction,
    port: PortNum,
    name: Seq<char>,
    k: int,
) -> bool {
    forall|j: int| 0 <= j < k ==> #[trigger] claims(bs, j, direction, port, name, Ok(false))
}

/// Whether the transport at place `k`, which has taken the port and
/// stands in `claimed` as taking the port left it, can answer `r` when it
/// is to connect the port to `peer`. The transports behind it in `claimed`
/// are those of `before`.
pub open spec fn connected(
    before: Seq<Box<dyn Backend>>,
    claimed: Seq<Box<dyn Backend>>,
    k: int,
    direction: Direction,
    port: PortNum,
    peer: Seq<char>,
    r: Result<bool, BackendError>,
) -> bool {
    &&& claimed.len() == before.len()
    &&& forall|j: int| k < j < before.len() ==> #[trigger] claimed[j] == before[j]
    &&& connects(claimed, k, direction, port, peer, r)
}

/// Whether offering port `port` of the name `name` to the transports
/// `before`, in order, can end in `r` and leave the transports as `after`.
///
/// The transports are asked in order up to the first that takes the port or
/// fails; the one that takes it is asked to connect the port to `peer`, and
/// `r` is its place. The transports behind it are not asked and stay as
/// they are. Where none takes the port, `r` is nothing.
pub open spec fn offered(
    before: Seq<Box<dyn Backend>>,
    direction: Direction,
    port: PortNum,
    name: Seq<char>,
    peer: Seq<char>,
    after: Seq<Box<dyn Backend>>,
    r: Result<Option<usize>, BackendError>,
) -> bool {
    &&& after.len() == before.len()
    &&& exists|k: int, claimed: Seq<Box<dyn Backend>>|
        #![trigger some_number(k), some_transports(claimed)]
        {
            &&& some_number(k)
            &&& some_transports(claimed)
            &&& 0 <= k <= before.len()
            &&& none_claimed(before, direction, port, name, k)
            &&& forall|j: int| k < j < before.len() ==> #[trigger] after[j] == before[j]
            &&& match r {
                Ok(None) => k == before.len(),
                Ok(Some(i)) => i == k && k < before.len() && claims(
                    before,
                    k,
                    direction,
                    port,
                    name,
                    Ok(true),
                ) && exists|done: bool| #[trigger]
                    connected(before, claimed, k, direction, port, peer, Ok(done)),
                Err(e) => k < before.len() && (claims(before, k, direction, port, name, Err(e))
                    || (claims(before, k, direction, port, name, Ok(true)) && connected(
                    before,
                    claimed,
                    k,
                    direction,
                    port,
                    peer,
                    Err(e),
                ))),
            }
        }
}

/// Offers the port `port` to each transport in turn until one takes it, and
/// has that one connect it to `peer`. Returns the place of the transport
/// that took the port.
pub fn offer_port(
    backends: &mut Vec<Box<dyn Backend>>,
    direction: Direction,
    port: PortNum,
    name: &str,
    peer: &str,
) -> (r: Result<Option<usize>, BackendError>)
    ensures
        offered(old(backends)@, direction, port, name@, peer@, final(backends)@, r),
        final(backends)@.len() == old(backends)@.len(),
        r matches Ok(Some(i)) ==> i < old(backends)@.len(),
        old(backends)@.len() == 0 ==> r matches Ok(None),
{
    let mut i: usize = 0;
    while i < backends.len()
        invariant
            i <= backends.len(),
            backends@.len() == old(backends)@.len(),
            none_claimed(old(backends)@, direction, port, name@, i as int),
            forall|j: int| i <= j < backends@.len() ==> #[trigger] backends@[j] == old(backends)@[j],
        decreases backends.len() - i,
    {
        let ghost asked = backends@;
        let answer = match direction {
            Direction::In => backends[i].create_in_port(port, name),
            Direction::Out => backends[i].create_out_port(port, name),
        };
        proof {
            assert(asked[i as int] == old(backends)@[i as int]);
            assert(claims(asked, i as int, direction, port, name@, answer));
            assert(claims(old(backends)@, i as int, direction, port, name@, answer));
        }
        match answer {
            Err(e) => {
                assert(some_number(i as int) && some_transports(asked));
                return Err(e);
            },
            Ok(taken) => {
                if taken {
                    let ghost claimed = backends@;
                    let joined = match direction {
                        Direction::In => backends[i].connect_in_port(port, peer),
                        Direction::Out => backends[i].connect_out_port(port, peer),
                    };
                    assert(connects(claimed, i as int, direction, port, peer@, joined));
                    match joined {
                        Err(e) => {
                            assert(some_number(i as int) && some_transports(claimed));
                            return Err(e);
                        },
                        Ok(done) => {
                            assert(connected(
                                old(backends)@,
                                claimed,
                                i as int,
                                direction,
                                port,
                                peer@,
                                Ok(done),
                            ));
                            assert(some_number(i as int) && some_transports(claimed));
                            return Ok(Some(i));
                        },
                    }
                }
            },
        }
        i += 1;
    }
    assert(some_number(i as int) && some_transports(backends@));
    Ok(None)
}

/// Whether each of the first `k` transports can have answered that it sent
/// nothing of `ev`.
pub open spec fn none_sent(bs: Seq<Box<dyn Backend>>, ev: EventView, k: int) -> bool {
    forall|j: int| 0 <= j < k ==> #[trigger] bs[j].sends(ev, Ok(0))
}

/// Whether handing `ev` to the transports `before`, in order, can end in
/// `r` and leave the transports as `after`.
///
/// The transports are asked in order up to the first that sends something
/// or fails, and `r` is its answer; the transports behind it are not asked
/// and stay as they are. Where none sends, `r` is 0.
pub open spec fn dispatched(
    before: Seq<Box<dyn Backend>>,
    ev: EventView,
    after: Seq<Box<dyn Backend>>,
    r: Result<u32, BackendError>,
) -> bool {
    &&& after.len() == before.len()
    &&& exists|k: int|
        {
            &&& #[trigger] some_number(k)
            &&& 0 <= k <= before.len()
            &&& none_sent(before, ev, k)
            &&& forall|j: int| k < j < before.len() ==> #[trigger] after[j] == before[j]
            &&& match r {
                Ok(n) => if n > 0 {
                    k < before.len() && before[k].sends(ev, r)
                } else {
                    k == before.len()
                },
                Err(_) => k < before.len() && before[k].sends(ev, r),
            }
        }
}

/// Hands `ev` to each transport in turn until one has sent it. Returns the
/// number of bytes that went out, 0 where no transport sent the event.
pub fn dispatch(backends: &mut Vec<Box<dyn Backend>>, ev: &Event) -> (r: Result<u32, BackendError>)
    ensures
        dispatched(old(backends)@, ev@, final(backends)@, r),
        final(backends)@.len() == old(backends)@.len(),
        old(backends)@.len() == 0 ==> r matches Ok(0),
{
    let mut i: usize = 0;
    while i < backends.len()
        invariant
            i <= backends.len(),
            backends@.len() == old(backends)@.len(),
            none_sent(old(backends)@, ev@, i as int),
            forall|j: int| i <= j < backends@.len() ==> #[trigger] backends@[j] == old(backends)@[j],
        decreases backends.len() - i,
    {
        match backends[i].output_event(ev) {
            Err(e) => {
                assert(some_number(i as int) && old(backends)@[i as int].sends(ev@, Err(e)));
                return Err(e);
            },
            Ok(sent) => {
                if sent > 0 {
                    assert(some_number(i as int) && old(backends)@[i as int].sends(
                        ev@,
                        Ok(sent),
                    ));
                    return Ok(sent);
                }
            },
        }
        i += 1;
    }
    assert(some_number(i as int));
    Ok(0)
}

/// Whether handing each of `events` in turn to the transports `before` can
/// go without an error and leave the transports as `after`.
pub open spec fn delivered_all(
    before: Seq<Box<dyn Backend>>,
    events: Seq<EventView>,
    after: Seq<Box<dyn Backend>>,
) -> bool
    decreases events.len(),
{
    if events.len() == 0 {
        after == before
    } else {
        exists|mid: Seq<Box<dyn Backend>>, n: u32|
            #![trigger some_transports(mid), some_number(n as int)]
            some_transports(mid) && some_number(n as int) && delivered_all(
                before,
                events.drop_last(),
                mid,
            ) && dispatched(mid, events.last(), after, Ok(n))
    }
}

/// Whether handing each of `events` in turn to the transports `before` can
/// leave the transports as `after`, without an error where `failed` is
/// nothing, and else with the error `failed` at the first event that a
/// transport failed on, the events behind it not handed over.
pub open spec fn delivered(
    before: Seq<Box<dyn Backend>>,
    events: Seq<EventView>,
    after: Seq<Box<dyn Backend>>,
    failed: Option<BackendError>,
) -> bool {
    match failed {
        None => delivered_all(before, events, after),
        Some(e) => exists|i: int, mid: Seq<Box<dyn Backend>>|
            #![trigger some_number(i), some_transports(mid)]
            some_number(i) && some_transports(mid) && 0 <= i < events.len() && delivered_all(
                before,
                events.take(i),
                mid,
            ) && dispatched(mid, events[i], after, Err(e)),
    }
}

/// Hands each of `events` in turn to the transports, up to the first
/// error of a transport.
pub fn dispatch_all(backends: &mut Vec<Box<dyn Backend>>, events: &EventStream) -> (r: Result<
    (),
    BackendError,
>)
    ensures
        delivered(
            old(backends)@,
            events@,
            final(backends)@,
            match r {
                Ok(_) => None,
                Err(e) => Some(e),
            },
        ),
        final(backends)@.len() == old(backends)@.len(),
        old(backends)@.len() == 0 || events@.len() == 0 ==> r is Ok,
{
    let mut i: usize = 0;
    assert(events@.take(0) =~= Seq::<EventView>::empty());
    while i < events.len()
        invariant
            i <= events@.len(),
            backends@.len() == old(backends)@.len(),
            delivered_all(old(backends)@, events@.take(i as int), backends@),
        decreases events@.len() - i,
    {
        let ghost mid = backends@;
        match dispatch(backends, events.get(i)) {
            Err(e) => {
                assert(some_number(i as int) && some_transports(mid) && delivered_all(
                    old(backends)@,
                    events@.take(i as int),
                    mid,
                ) && dispatched(mid, events@[i as int], backends@, Err(e)));
                return Err(e);
            },
            Ok(n) => {
                proof {
                    assert(events@.take(i + 1).drop_last() =~= events@.take(i as int));
                    assert(some_transports(mid) && some_number(n as int) && delivered_all(
                        old(backends)@,
                        events@.take(i + 1).drop_last(),
                        mid,
                    ) && dispatched(mid, events@.take(i + 1).last(), backends@, Ok(n)));
                }
            },
        }
        i += 1;
    }
    assert(events@.take(i as int) =~= events@);
    Ok(())
}

/// The views of a list of streams, one after the other.
pub open spec fn streams_joined(parts: Seq<EventStream>) -> Seq<EventView>
    decreases parts.len(),
{
    if parts.len() == 0 {
        Seq::empty()
    } else {
        streams_joined(parts.drop_last()) + parts.last()@
    }
}

/// Whether asking the transports `before`, in order, for the events that
/// are ready can end in `r`: in the streams that they can have answered
/// with, one after the other, or in the error of the first that failed.
pub open spec fn gathered(before: Seq<Box<dyn Backend>>, r: Result<EventStream, BackendError>) -> bool {
    exists|parts: Seq<EventStream>|
        {
            &&& #[trigger] some_number(parts.len() as int)
            &&& parts.len() <= before.len()
            &&& forall|j: int| 0 <= j < parts.len() ==> #[trigger] before[j].yields(Ok(parts[j]))
            &&& match r {
                Ok(events) => parts.len() == before.len() && events@ == streams_joined(parts),
                Err(e) => parts.len() < before.len() && before[parts.len() as int].yields(Err(e)),
            }
        }
}

/// The events that are ready in the transports: those of the first
/// transport, then those of the second, and so on.
pub fn gather(backends: &mut Vec<Box<dyn Backend>>) -> (r: Result<EventStream, BackendError>)
    ensures
        gathered(old(backends)@, r),
        final(backends)@.len() == old(backends)@.len(),
        old(backends)@.len() == 0 ==> (r matches Ok(events) && events@.len() == 0),
{
    let mut events = EventStream::empty();
    let ghost mut parts = Seq::<EventStream>::empty();
    let mut i: usize = 0;
    while i < backends.len()
        invariant
            i <= backends.len(),
            backends@.len() == old(backends)@.len(),
            parts.len() == i,
            forall|j: int| 0 <= j < i ==> #[trigger] old(backends)@[j].yields(Ok(parts[j])),
            forall|j: int| i <= j < backends@.len() ==> #[trigger] backends@[j] == old(backends)@[j],
            events@ == streams_joined(parts),
        decreases backends.len() - i,
    {
        match backends[i].run() {
            Err(e) => {
                assert(some_number(parts.len() as int));
                return Err(e);
            },
            Ok(ready) => {
                proof {
                    assert(parts.push(ready).drop_last() =~= parts);
                    parts = parts.push(ready);
                }
                events.extend(ready);
            },
        }
        i += 1;
    }
    assert(some_number(parts.len() as int));
    Ok(events)
}

/// The file descriptors of a list of lists, one list after the other.
pub open spec fn pollfds_joined(parts: Seq<Vec<libc::pollfd>>) -> Seq<libc::pollfd>
    decreases parts.len(),
{
    if parts.len() == 0 {
        Seq::empty()
    } else {
        pollfds_joined(parts.drop_last()) + parts.last()@
    }
}

/// Whether asking the transports `before`, in order, for their file
/// descriptors can end in `r`: in the lists that they can have answered
/// with, one after the other, or in the error of the first that failed.
pub open spec fn polled(before: Seq<Box<dyn Backend>>, r: Result<Vec<libc::pollfd>, BackendError>) -> bool {
    exists|parts: Seq<Vec<libc::pollfd>>|
        {
            &&& #[trigger] some_number(parts.len() as int)
            &&& parts.len() <= before.len()
            &&& forall|j: int| 0 <= j < parts.len() ==> #[trigger] before[j].polls(Ok(parts[j]))
            &&& match r {
                Ok(fds) => parts.len() == before.len() && fds@ == pollfds_joined(parts),
                Err(e) => parts.len() < before.len() && before[parts.len() as int].polls(Err(e)),
            }
        }
}

/// The file descriptors on which the input of the transports shows: those
/// of the first transport, then those of the second, and so on.
pub fn gather_pollfds(backends: &mut Vec<Box<dyn Backend>>) -> (r: Result<
    Vec<libc::pollfd>,
    BackendError,
>)
    ensures
        polled(old(backends)@, r),
        final(backends)@.len() == old(backends)@.len(),
        old(backends)@.len() == 0 ==> (r matches Ok(fds) && fds@.len() == 0),
{
    let mut fds: Vec<libc::pollfd> = Vec::new();
    let ghost mut parts = Seq::<Vec<libc::pollfd>>::empty();
    let mut i: usize = 0;
    while i < backends.len()
        invariant
            i <= backends.len(),
            backends@.len() == old(backends)@.len(),
            parts.len() == i,
            forall|j: int| 0 <= j < i ==> #[trigger] old(backends)@[j].polls(Ok(parts[j])),
            forall|j: int| i <= j < backends@.len() ==> #[trigger] backends@[j] == old(backends)@[j],
            fds@ == pollfds_joined(parts),
        decreases backends.len() - i,
    {
        match backends[i].get_pollfds() {
            Err(e) => {
                assert(some_number(parts.len() as int));
                return Err(e);
            },
            Ok(more) => {
                proof {
                    assert(parts.push(more).drop_last() =~= parts);
                    parts = parts.push(more);
                }
                let mut more = more;
                fds.append(&mut more);
            },
        }
        i += 1;
    }
    assert(some_number(parts.len() as int));
    Ok(fds)
}

/// Whether announcing `name` to the transports `before`, in order, can go
/// without an error where `failed` is nothing, and else end with the error
/// `failed` at the first transport that failed.
pub open spec fn announced(
    before: Seq<Box<dyn Backend>>,
    name: Seq<char>,
    failed: Option<BackendError>,
) -> bool {
    exists|k: int|
        {
            &&& #[trigger] some_number(k)
            &&& 0 <= k <= before.len()
            &&& forall|j: int| 0 <= j < k ==> #[trigger] before[j].names(name, Ok(()))
            &&& match failed {
                None => k == before.len(),
                Some(e) => k < before.len() && before[k].names(name, Err(e)),
            }
        }
}

/// Announces `name` to each transport in turn, up to the first error.
pub fn announce(backends: &mut Vec<Box<dyn Backend>>, name: &str) -> (r: Result<(), BackendError>)
    ensures
        announced(
            old(backends)@,
            name@,
            match r {
                Ok(_) => None,
                Err(e) => Some(e),
            },
        ),
        final(backends)@.len() == old(backends)@.len(),
        old(backends)@.len() == 0 ==> r is Ok,
{
    let mut i: usize = 0;
    while i < backends.len()
        invariant
            i <= backends.len(),
            backends@.len() == old(backends)@.len(),
            forall|j: int| 0 <= j < i ==> #[trigger] old(backends)@[j].names(name@, Ok(())),
            forall|j: int| i <= j < backends@.len() ==> #[trigger] backends@[j] == old(backends)@[j],
        decreases backends.len() - i,
    {
        let ghost asked = backends@[i as int];
        let answer = backends[i].set_client_name(name);
        match answer {
            Err(e) => {
                assert(some_number(i as int));
                return Err(e);
            },
            Ok(done) => {
                assert(answer == Ok::<(), BackendError>(()));
            },
        }
        i += 1;
    }
    assert(some_number(i as int));
    Ok(())
}

/// Whether offering each of `ports` in turn, its place as its number, to the
/// transports `before` can end with every port taken and leave the
/// transports as `after`.
pub open spec fn offered_all(
    before: Seq<Box<dyn Backend>>,
    direction: Direction,
    ports: Seq<(String, String)>,
    after: Seq<Box<dyn Backend>>,
) -> bool
    decreases ports.len(),
{
    if ports.len() == 0 {
        after == before
    } else {
        exists|mid: Seq<Box<dyn Backend>>, k: usize|
            #![trigger some_transports(mid), some_number(k as int)]
            some_transports(mid) && some_number(k as int) && offered_all(
                before,
                direction,
                ports.drop_last(),
                mid,
            ) && offered(
                mid,
                direction,
                (ports.len() - 1) as usize,
                ports.last().0@,
                ports.last().1@,
                after,
                Ok(Some(k)),
            )
    }
}

/// Whether offering each of `ports` in turn to the transports `before` can
/// leave the transports as `after`: with every port taken where `failed` is
/// nothing; else with the error `failed` at the first port on which a
/// transport failed, or which no transport took, which is an error of the
/// configuration. The ports behind that one are not offered.
pub open spec fn ports_offered(
    before: Seq<Box<dyn Backend>>,
    direction: Direction,
    ports: Seq<(String, String)>,
    after: Seq<Box<dyn Backend>>,
    failed: Option<BackendError>,
) -> bool {
    match failed {
        None => offered_all(before, direction, ports, after),
        Some(e) => exists|i: int, mid: Seq<Box<dyn Backend>>|
            #![trigger some_number(i), some_transports(mid)]
            some_number(i) && some_transports(mid) && 0 <= i < ports.len() && offered_all(
                before,
                direction,
                ports.take(i),
                mid,
            ) && (offered(mid, direction, i as usize, ports[i].0@, ports[i].1@, after, Err(e))
                || (offered(mid, direction, i as usize, ports[i].0@, ports[i].1@, after, Ok(None))
                && e.kind == ErrorKind::Configuration)),
    }
}

/// Offers each of `ports` in turn to the transports, up to the first port
/// on which a transport fails or which no transport takes.
#[verifier::rlimit(80)]
pub fn offer_ports(
    backends: &mut Vec<Box<dyn Backend>>,
    direction: Direction,
    ports: &Vec<(String, String)>,
) -> (r: Result<(), BackendError>)
    ensures
        ports_offered(
            old(backends)@,
            direction,
            ports@,
            final(backends)@,
            match r {
                Ok(_) => None,
                Err(e) => Some(e),
            },
        ),
        final(backends)@.len() == old(backends)@.len(),
        ports@.len() == 0 ==> r is Ok,
        old(backends)@.len() == 0 && ports@.len() > 0 ==> (r matches Err(e) && e.kind
            == ErrorKind::Configuration),
{
    let mut port: usize = 0;
    assert(ports@.take(0) =~= Seq::<(String, String)>::empty());
    while port < ports.len()
        invariant
            port <= ports.len(),
            backends@.len() == old(backends)@.len(),
            offered_all(old(backends)@, direction, ports@.take(port as int), backends@),
            old(backends)@.len() == 0 ==> port == 0,
        decreases ports.len() - port,
    {
        let ghost mid = backends@;
        let taken = offer_port(
            backends,
            direction,
            port,
            ports[port].0.as_str(),
            ports[port].1.as_str(),
        );
        match taken {
            Err(e) => {
                assert(some_number(port as int) && some_transports(mid) && offered_all(
                    old(backends)@,
                    direction,
                    ports@.take(port as int),
                    mid,
                ) && offered(
                    mid,
                    direction,
                    port,
                    ports@[port as int].0@,
                    ports@[port as int].1@,
                    backends@,
                    Err(e),
                ));
                return Err(e);
            },
            Ok(None) => {
                let e = unclaimed_port();
                assert(some_number(port as int) && some_transports(mid) && offered_all(
                    old(backends)@,
                    direction,
                    ports@.take(port as int),
                    mid,
                ) && offered(
                    mid,
                    direction,
                    port,
                    ports@[port as int].0@,
                    ports@[port as int].1@,
                    backends@,
                    Ok(None),
                ) && e.kind == ErrorKind::Configuration);
                return Err(e);
            },
            Ok(Some(k)) => {
                proof {
                    assert(ports@.take(port + 1).drop_last() =~= ports@.take(port as int));
                    assert(some_transports(mid) && some_number(k as int) && offered_all(
                        old(backends)@,
                        direction,
                        ports@.take(port + 1).drop_last(),
                        mid,
                    ) && offered(
                        mid,
                        direction,
                        (ports@.take(port + 1).len() - 1) as usize,
                        ports@.take(port + 1).last().0@,
                        ports@.take(port + 1).last().1@,
                        backends@,
                        Ok(Some(k)),
                    ));
                }
            },
        }
        port += 1;
    }
    assert(ports@.take(port as int) =~= ports@);
    Ok(())
}

/// Whether taking the transports `before` into use with the name `name`
/// and the ports `in_ports` and `out_ports` can leave them as `after`:
/// the name is announced to every transport, then each input port is
/// offered, then each output port, up to the first error `failed`.
pub open spec fn configured(
    before: Seq<Box<dyn Backend>>,
    name: Seq<char>,
    in_ports: Seq<(String, String)>,
    out_ports: Seq<(String, String)>,
    after: Seq<Box<dyn Backend>>,
    failed: Option<BackendError>,
) -> bool {
    exists|named: Seq<Box<dyn Backend>>, inputs: Seq<Box<dyn Backend>>|
        #![trigger some_transports(named), some_transports(inputs)]
        some_transports(named) && some_transports(inputs) && match failed {
            None => announced(before, name, None) && ports_offered(
                named,
                Direction::In,
                in_ports,
                inputs,
                None,
            ) && ports_offered(inputs, Direction::Out, out_ports, after, None),
            Some(e) => announced(before, name, Some(e)) || (announced(before, name, None)
                && ports_offered(named, Direction::In, in_ports, after, Some(e))) || (announced(
                before,
                name,
                None,
            ) && ports_offered(named, Direction::In, in_ports, inputs, None) && ports_offered(
                inputs,
                Direction::Out,
                out_ports,
                after,
                Some(e),
            )),
        }
}

/// Whether starting the runner `runner` with the transports `before` can
/// leave the runner as `next` and the transports as `after`: whether the
/// start can make messages that were handed to the transports in turn,
/// without an error where `failed` is nothing, and else up to the error
/// `failed` of a transport.
pub open spec fn begun(
    before: Seq<Box<dyn Backend>>,
    runner: RunnerView,
    after: Seq<Box<dyn Backend>>,
    next: RunnerView,
    failed: Option<BackendError>,
) -> bool {
    exists|out: Seq<EventView>| #[trigger]
        runner.started(next, out) && delivered(before, out, after, failed)
}

/// Whether working the events `events` of the transports off can leave the
/// runner as `next` and the transports as `after`: whether the ticks can
/// make messages that were handed to the transports in turn, without an
/// error where `failed` is nothing, and else up to the error `failed` of a
/// transport.
pub open spec fn worked(
    runner: RunnerView,
    events: Seq<EventView>,
    after: Seq<Box<dyn Backend>>,
    next: RunnerView,
    failed: Option<BackendError>,
) -> bool {
    exists|mid: Seq<Box<dyn Backend>>, out: Seq<EventView>|
        #![trigger runner.worked_off(events, next, out), some_transports(mid)]
        some_transports(mid) && runner.worked_off(events, next, out) && delivered(
            mid,
            out,
            after,
            failed,
        )
}

/// Whether one turn of the main loop with the transports `before` and the
/// runner `runner` can end in `r`, the runner as `next` and the transports
/// as `after`.
///
/// Where it ends in events, these are what the transports had ready, and
/// the runner worked them off and the transports took what came of it. An
/// error is that of the first transport that failed: in giving its events,
/// the runner then being as it was, or in taking what came of the events.
pub open spec fn turned(
    before: Seq<Box<dyn Backend>>,
    runner: RunnerView,
    after: Seq<Box<dyn Backend>>,
    next: RunnerView,
    r: Result<EventStream, BackendError>,
) -> bool {
    match r {
        Ok(events) => gathered(before, Ok(events)) && worked(runner, events@, after, next, None),
        Err(e) => (gathered(before, Err(e)) && next == runner) || exists|events: EventStream|
            #![trigger gathered(before, Ok(events))]
            gathered(before, Ok(events)) && worked(runner, events@, after, next, Some(e)),
    }
}

/// The error for a port that no transport takes.
pub fn unclaimed_port() -> (e: BackendError)
    ensures
        e.kind == ErrorKind::Configuration,
        e.message@ == "no transport takes the port"@,
{
    BackendError {
        kind: ErrorKind::Configuration,
        message: String::from_str("no transport takes the port"),
    }
}

/// The engine.
pub struct RMididings {
    backends: Vec<Box<dyn Backend>>,
    port_offset: u8,
    channel_offset: u8,
    scene_offset: SceneNum,
    initial_scene_num: SceneNum,
}

impl RMididings {
    /// The number that the user gives to the first port.
    pub closed spec fn port_offset(&self) -> u8 {
        self.port_offset
    }

    /// The number that the user gives to the first channel.
    pub closed spec fn channel_offset(&self) -> u8 {
        self.channel_offset
    }

    /// The number that the user gives to the first scene.
    pub closed spec fn scene_offset(&self) -> SceneNum {
        self.scene_offset
    }

    /// The scene to begin with.
    pub closed spec fn initial_scene_num(&self) -> SceneNum {
        self.initial_scene_num
    }

    /// The transports in use, in the order in which they are asked.
    pub closed spec fn transports(&self) -> Seq<Box<dyn Backend>> {
        self.backends@
    }

    /// The number of transports in use.
    pub open spec fn backend_count(&self) -> nat {
        self.transports().len()
    }

    /// An engine without transports that counts from 1.
    pub fn new() -> (r: Result<Self, BackendError>)
        ensures
            r is Ok,
            r->Ok_0.port_offset() == 1,
            r->Ok_0.channel_offset() == 1,
            r->Ok_0.scene_offset() == 1,
            r->Ok_0.initial_scene_num() == 0,
            r->Ok_0.backend_count() == 0,
    {
        Ok(
            RMididings {
                backends: Vec::new(),
                port_offset: 1,
                channel_offset: 1,
                scene_offset: 1,
                initial_scene_num: 0,
            },
        )
    }

    /// Takes `backends` into use: announces the client name to each, offers
    /// each input port and then each output port to the transports in turn,
    /// and takes over the offsets and the initial scene.
    ///
    /// A port that no transport takes is an error of the configuration. The
    /// first error ends the configuration; the transports stay in use.
    pub fn config(&mut self, args: ConfigArguments, backends: Vec<Box<dyn Backend>>) -> (r: Result<
        (),
        BackendError,
    >)
        ensures
            configured(
                backends@,
                args.client_name@,
                args.in_ports@,
                args.out_ports@,
                final(self).transports(),
                match r {
                    Ok(_) => None,
                    Err(e) => Some(e),
                },
            ),
            final(self).backend_count() == backends@.len(),
            r is Ok ==> {
                &&& final(self).port_offset() == args.data_offset
                &&& final(self).channel_offset() == args.data_offset
                &&& final(self).scene_offset() == args.scene_offset
                &&& final(self).initial_scene_num() == args.initial_scene
            },
            r is Err ==> {
                &&& final(self).port_offset() == old(self).port_offset()
                &&& final(self).channel_offset() == old(self).channel_offset()
                &&& final(self).scene_offset() == old(self).scene_offset()
                &&& final(self).initial_scene_num() == old(self).initial_scene_num()
            },
            backends@.len() == 0 ==> if args.in_ports@.len() == 0 && args.out_ports@.len() == 0 {
                r is Ok
            } else {
                (r matches Err(e) && e.kind == ErrorKind::Configuration)
            },
    {
        self.backends = backends;
        match announce(&mut self.backends, args.client_name.as_str()) {
            Err(e) => {
                assert(some_transports(self.backends@));
                return Err(e);
            },
            Ok(_) => {},
        }
        let ghost named = self.backends@;
        match offer_ports(&mut self.backends, Direction::In, &args.in_ports) {
            Err(e) => {
                assert(some_transports(named) && some_transports(self.backends@));
                return Err(e);
            },
            Ok(_) => {},
        }
        let ghost inputs = self.backends@;
        match offer_ports(&mut self.backends, Direction::Out, &args.out_ports) {
            Err(e) => {
                assert(some_transports(named) && some_transports(inputs));
                return Err(e);
            },
            Ok(_) => {},
        }
        assert(some_transports(named) && some_transports(inputs));
        self.initial_scene_num = args.initial_scene;
        self.port_offset = args.data_offset;
        self.channel_offset = args.data_offset;
        self.scene_offset = args.scene_offset;
        Ok(())
    }

    /// A runner for `args` with the offsets and the initial scene of the engine.
    pub fn runner(&self, args: RunArguments) -> (r: Runner)
        ensures
            r@.wf(),
            r@ == (RunnerView {
                patch: args.patch,
                scenes: args.scenes@,
                control: args.control,
                pre: args.pre,
                post: args.post,
                port_offset: self.port_offset(),
                channel_offset: self.channel_offset(),
                scene_offset: self.scene_offset(),
                initial_scene_num: self.initial_scene_num(),
                current_scene_num: None,
                current_subscene_num: None,
                stored_subscene_nums: initial_subscene_nums(args.scenes@),
                running: false,
            }),
    {
        Runner::new(
            args,
            self.port_offset,
            self.channel_offset,
            self.scene_offset,
            self.initial_scene_num,
        )
    }

    /// The file descriptors on which the input of the transports shows.
    pub fn get_pollfds(&mut self) -> (r: Result<Vec<libc::pollfd>, BackendError>)
        ensures
            polled(old(self).transports(), r),
            final(self).backend_count() == old(self).backend_count(),
            final(self).port_offset() == old(self).port_offset(),
            final(self).channel_offset() == old(self).channel_offset(),
            final(self).scene_offset() == old(self).scene_offset(),
            final(self).initial_scene_num() == old(self).initial_scene_num(),
            old(self).backend_count() == 0 ==> (r matches Ok(fds) && fds@.len() == 0),
    {
        gather_pollfds(&mut self.backends)
    }

    /// Starts `runner` and sends what its hooks made.
    pub fn begin(&mut self, runner: &mut Runner) -> (r: Result<(), BackendError>)
        requires
            old(runner)@.wf(),
        ensures
            final(runner)@.wf(),
            old(runner)@.same_setup(final(runner)@),
            begun(
                old(self).transports(),
                old(runner)@,
                final(self).transports(),
                final(runner)@,
                match r {
                    Ok(_) => None,
                    Err(e) => Some(e),
                },
            ),
            old(runner)@.deterministic() ==> final(runner)@ == old(runner)@.start().0,
            final(self).backend_count() == old(self).backend_count(),
            old(self).backend_count() == 0 ==> r is Ok,
    {
        let out = runner.start();
        dispatch_all(&mut self.backends, &out)
    }

    /// One turn of the main loop: reads the events that are ready in the
    /// transports, has `runner` work them off, and sends what came of them.
    /// Returns the events that were read.
    pub fn run_once(&mut self, runner: &mut Runner) -> (r: Result<EventStream, BackendError>)
        requires
            old(runner)@.wf(),
        ensures
            final(runner)@.wf(),
            old(runner)@.same_setup(final(runner)@),
            final(self).backend_count() == old(self).backend_count(),
            turned(
                old(self).transports(),
                old(runner)@,
                final(self).transports(),
                final(runner)@,
                r,
            ),
            r matches Ok(events) ==> (old(runner)@.deterministic() ==> final(runner)@
                == old(runner)@.ticks(events@).0),
            old(self).backend_count() == 0 ==> (r matches Ok(events) && events@.len() == 0),
    {
        let events = match gather(&mut self.backends) {
            Ok(events) => events,
            Err(e) => {
                return Err(e);
            },
        };
        let ghost mid = self.backends@;
        let out = runner.process(&events);
        match dispatch_all(&mut self.backends, &out) {
            Ok(_) => {
                assert(some_transports(mid) && old(runner)@.worked_off(events@, runner@, out@)
                    && delivered(mid, out@, self.backends@, None));
                Ok(events)
            },
            Err(e) => {
                assert(some_transports(mid) && old(runner)@.worked_off(events@, runner@, out@)
                    && delivered(mid, out@, self.backends@, Some(e)));
                assert(gathered(old(self).transports(), Ok(events)) && worked(
                    old(runner)@,
                    events@,
                    self.backends@,
                    runner@,
                    Some(e),
                ));
                Err(e)
            },
        }
    }
}

} // verus!
