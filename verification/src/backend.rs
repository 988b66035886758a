//! Transports: what the runtime asks of them, how the name of a port says
//! which transport it belongs to, and the transport that does nothing.
use crate::event::{Event, EventView};
use crate::event_stream::EventStream;
use crate::strings::{skip_chars, split_once, split_spec, starts_with, str_eq};
use vstd::prelude::*;
use vstd::string::{StrSliceExecFns, StringExecFns};

verus! {

/// Number of a port: its place in the list of ports that was configured.
pub type PortNum = usize;

/// The kinds of error.
#[derive(Debug, Copy, Clone, PartialEq, Eq, Hash, Structural)]
pub enum ErrorKind {
    /// The settings ask for what cannot be had: a port that no transport takes.
    Configuration,
    /// A transport could not open or bind what it needs.
    Transport,
    /// A message on the wire is malformed.
    Protocol,
    /// Input came faster than it was read.
    Runtime,
    /// The system failed in a way that nothing can mend.
    Fatal,
}

/// What went wrong.
#[derive(Debug)]
pub struct BackendError {
    pub kind: ErrorKind,
    pub message: String,
}

/// `libc::pollfd`: a file descriptor to wait on, with the events waited
/// for. Nothing is claimed of what a value holds; the library hands such
/// values from the transports to the one who waits.
#[verifier::external_type_specification]
#[verifier::external_body]
pub struct ExPollFd(libc::pollfd);

/// A transport: it owns ports, yields the events that have come in, and
/// sends events out.
///
/// For each method there is a relation that says which answers the
/// transport, as it stands, can give to which question. A transport that says
/// nothing of itself can give any answer.
pub trait Backend {
    /// Whether `r` can be the answer when `name` is announced.
    open spec fn names(&self, name: Seq<char>, r: Result<(), BackendError>) -> bool {
        true
    }

    /// Whether `r` can be the answer when input port `port` of the name
    /// `name` is offered.
    open spec fn creates_in(&self, port: PortNum, name: Seq<char>, r: Result<bool, BackendError>) -> bool {
        true
    }

    /// Whether `r` can be the answer when output port `port` of the name
    /// `name` is offered.
    open spec fn creates_out(&self, port: PortNum, name: Seq<char>, r: Result<bool, BackendError>) -> bool {
        true
    }

    /// Whether `r` can be the answer when input port `port` is to be
    /// connected to `peer`.
    open spec fn connects_in(&self, port: PortNum, peer: Seq<char>, r: Result<bool, BackendError>) -> bool {
        true
    }

    /// Whether `r` can be the answer when output port `port` is to be
    /// connected to `peer`.
    open spec fn connects_out(&self, port: PortNum, peer: Seq<char>, r: Result<bool, BackendError>) -> bool {
        true
    }

    /// Whether `r` can be the answer when the file descriptors are asked for.
    open spec fn polls(&self, r: Result<Vec<libc::pollfd>, BackendError>) -> bool {
        true
    }

    /// Whether `r` can be the answer when the events that are ready are asked for.
    open spec fn yields(&self, r: Result<EventStream, BackendError>) -> bool {
        true
    }

    /// Whether `r` can be the answer when `ev` is handed over to be sent.
    open spec fn sends(&self, ev: EventView, r: Result<u32, BackendError>) -> bool {
        true
    }

    /// Announces `name` to the peers of the transport.
    fn set_client_name(&mut self, name: &str) -> (r: Result<(), BackendError>)
        ensures
            old(self).names(name@, r),
    ;

    /// Makes the input port `port` if `name` is one of this transport's
    /// names; says whether it did.
    fn create_in_port(&mut self, port: PortNum, name: &str) -> (r: Result<bool, BackendError>)
        ensures
            old(self).creates_in(port, name@, r),
    ;

    /// Makes the output port `port` if `name` is one of this transport's
    /// names; says whether it did.
    fn create_out_port(&mut self, port: PortNum, name: &str) -> (r: Result<bool, BackendError>)
        ensures
            old(self).creates_out(port, name@, r),
    ;

    /// Connects the input port `port` to the peer `name`; says whether it did.
    fn connect_in_port(&mut self, port: PortNum, name: &str) -> (r: Result<bool, BackendError>)
        ensures
            old(self).connects_in(port, name@, r),
    ;

    /// Connects the output port `port` to the peer `name`; says whether it did.
    fn connect_out_port(&mut self, port: PortNum, name: &str) -> (r: Result<bool, BackendError>)
        ensures
            old(self).connects_out(port, name@, r),
    ;

    /// The file descriptors on which input shows.
    fn get_pollfds(&mut self) -> (r: Result<Vec<libc::pollfd>, BackendError>)
        ensures
            old(self).polls(r),
    ;

    /// The events that are ready now.
    fn run(&mut self) -> (r: Result<EventStream, BackendError>)
        ensures
            old(self).yields(r),
    ;

    /// Sends `ev` if it is one of this transport's; the number of bytes sent.
    fn output_event(&mut self, ev: &Event) -> (r: Result<u32, BackendError>)
        ensures
            old(self).sends(ev@, r),
    ;
}

/// The transport that the name of a port asks for.
#[derive(Debug, Copy, Clone, PartialEq, Eq, Hash, Structural)]
pub enum PortKind {
    /// A name without a scheme: a port of the MIDI transport in use.
    Bare,
    /// `alsa:`, a port of the ALSA sequencer.
    Alsa,
    /// `osc:`, OSC over both UDP and TCP.
    Osc,
    /// `osc.udp:`, OSC over UDP.
    OscUdp,
    /// `osc.tcp:`, OSC over TCP.
    OscTcp,
    /// `null:`, a port that leads nowhere.
    Null,
    /// A scheme that no transport knows.
    Other,
}

/// The name of a port, taken apart.
#[derive(Debug)]
pub struct PortSpec {
    pub kind: PortKind,
    /// What follows the scheme; the whole name where there is no scheme.
    pub name: String,
}

/// The transport that the scheme `scheme` stands for.
pub open spec fn port_kind(scheme: Seq<char>) -> PortKind {
    if scheme == "alsa"@ {
        PortKind::Alsa
    } else if scheme == "osc"@ {
        PortKind::Osc
    } else if scheme == "osc.udp"@ {
        PortKind::OscUdp
    } else if scheme == "osc.tcp"@ {
        PortKind::OscTcp
    } else if scheme == "null"@ {
        PortKind::Null
    } else {
        PortKind::Other
    }
}

/// Whether ports of this kind are OSC ports.
pub open spec fn is_osc(kind: PortKind) -> bool {
    kind is Osc || kind is OscUdp || kind is OscTcp
}

/// The parts of the port name `s`.
///
/// The scheme is what stands before the first colon. Of an OSC port the two
/// slashes that may follow the colon do not belong to the name.
pub open spec fn port_spec(s: Seq<char>) -> (PortKind, Seq<char>) {
    match split_spec(s, ':') {
        Some((scheme, rest)) => {
            let kind = port_kind(scheme);
            if is_osc(kind) && "//"@.is_prefix_of(rest) {
                (kind, rest.skip("//"@.len() as int))
            } else {
                (kind, rest)
            }
        },
        None => (PortKind::Bare, s),
    }
}

/// Takes the name of a port apart.
pub fn parse_port_spec(s: &str) -> (r: PortSpec)
    ensures
        (r.kind, r.name@) == port_spec(s@),
{
    match split_once(s, ':') {
        Some((scheme, rest)) => {
            let scheme = scheme.as_str();
            let kind = if str_eq(scheme, "alsa") {
                PortKind::Alsa
            } else if str_eq(scheme, "osc") {
                PortKind::Osc
            } else if str_eq(scheme, "osc.udp") {
                PortKind::OscUdp
            } else if str_eq(scheme, "osc.tcp") {
                PortKind::OscTcp
            } else if str_eq(scheme, "null") {
                PortKind::Null
            } else {
                PortKind::Other
            };
            let osc = match kind {
                PortKind::Osc => true,
                PortKind::OscUdp => true,
                PortKind::OscTcp => true,
                _ => false,
            };
            if osc && starts_with(rest.as_str(), "//") {
                let n = "//".unicode_len();
                PortSpec { kind, name: skip_chars(rest.as_str(), n) }
            } else {
                PortSpec { kind, name: rest }
            }
        },
        None => PortSpec { kind: PortKind::Bare, name: String::from_str(s) },
    }
}

/// Whether a port of this kind goes over UDP, and whether it goes over
/// TCP; nothing for a port that is no OSC port.
pub open spec fn osc_protocols_of(kind: PortKind) -> Option<(bool, bool)> {
    match kind {
        PortKind::Osc => Some((true, true)),
        PortKind::OscUdp => Some((true, false)),
        PortKind::OscTcp => Some((false, true)),
        _ => None,
    }
}

/// Whether a port of this kind goes over UDP, and whether it goes over
/// TCP; nothing for a port that is no OSC port.
pub fn osc_protocols(kind: PortKind) -> (r: Option<(bool, bool)>)
    ensures
        r == osc_protocols_of(kind),
{
    match kind {
        PortKind::Osc => Some((true, true)),
        PortKind::OscUdp => Some((true, false)),
        PortKind::OscTcp => Some((false, true)),
        _ => None,
    }
}

/// The name of the sequencer port that the port name `s` asks for: the
/// name itself where it has no scheme, what follows the scheme `alsa`
/// where it has that one, and nothing where it has another.
pub open spec fn alsa_port_name_of(s: Seq<char>) -> Option<Seq<char>> {
    if port_spec(s).0 is Bare || port_spec(s).0 is Alsa {
        Some(port_spec(s).1)
    } else {
        None
    }
}

/// The name of the sequencer port that the port name `s` asks for.
pub fn alsa_port_name(s: &str) -> (r: Option<String>)
    ensures
        match r {
            Some(name) => alsa_port_name_of(s@) == Some(name@),
            None => alsa_port_name_of(s@) is None,
        },
{
    let spec = parse_port_spec(s);
    match spec.kind {
        PortKind::Bare => Some(spec.name),
        PortKind::Alsa => Some(spec.name),
        _ => None,
    }
}

/// Whether the transport that does nothing takes a port of this name: one
/// without a scheme, or one with the scheme `null`.
pub open spec fn null_claims(name: Seq<char>) -> bool {
    port_spec(name).0 is Bare || port_spec(name).0 is Null
}

/// The transport that does nothing: it takes ports, yields no events and
/// sends none.
#[derive(Debug)]
pub struct NullBackend {}

impl NullBackend {
    pub fn new() -> (r: Result<Self, BackendError>)
        ensures
            r is Ok,
    {
        Ok(NullBackend {  })
    }

    /// Whether this transport takes a port of the name `name`.
    pub fn claims(name: &str) -> (b: bool)
        ensures
            b == null_claims(name@),
    {
        match parse_port_spec(name).kind {
            PortKind::Bare => true,
            PortKind::Null => true,
            _ => false,
        }
    }
}

impl Backend for NullBackend {
    open spec fn names(&self, name: Seq<char>, r: Result<(), BackendError>) -> bool {
        r is Ok
    }

    open spec fn creates_in(&self, port: PortNum, name: Seq<char>, r: Result<bool, BackendError>) -> bool {
        r matches Ok(taken) && taken == null_claims(name)
    }

    open spec fn creates_out(&self, port: PortNum, name: Seq<char>, r: Result<bool, BackendError>) -> bool {
        r matches Ok(taken) && taken == null_claims(name)
    }

    open spec fn connects_in(&self, port: PortNum, peer: Seq<char>, r: Result<bool, BackendError>) -> bool {
        r matches Ok(done) && !done
    }

    open spec fn connects_out(&self, port: PortNum, peer: Seq<char>, r: Result<bool, BackendError>) -> bool {
        r matches Ok(done) && !done
    }

    open spec fn polls(&self, r: Result<Vec<libc::pollfd>, BackendError>) -> bool {
        r matches Ok(fds) && fds@.len() == 0
    }

    open spec fn yields(&self, r: Result<EventStream, BackendError>) -> bool {
        r matches Ok(events) && events@.len() == 0
    }

    open spec fn sends(&self, ev: EventView, r: Result<u32, BackendError>) -> bool {
        r matches Ok(n) && n == 0
    }

    fn set_client_name(&mut self, name: &str) -> (r: Result<(), BackendError>)
        ensures
            r is Ok,
    {
        Ok(())
    }

    fn create_in_port(&mut self, port: PortNum, name: &str) -> (r: Result<bool, BackendError>)
        ensures
            r is Ok,
            r->Ok_0 == null_claims(name@),
    {
        Ok(NullBackend::claims(name))
    }

    fn create_out_port(&mut self, port: PortNum, name: &str) -> (r: Result<bool, BackendError>)
        ensures
            r is Ok,
            r->Ok_0 == null_claims(name@),
    {
        Ok(NullBackend::claims(name))
    }

    fn connect_in_port(&mut self, port: PortNum, name: &str) -> (r: Result<bool, BackendError>)
        ensures
            r is Ok,
            r->Ok_0 == false,
    {
        Ok(false)
    }

    fn connect_out_port(&mut self, port: PortNum, name: &str) -> (r: Result<bool, BackendError>)
        ensures
            r is Ok,
            r->Ok_0 == false,
    {
        Ok(false)
    }

    fn get_pollfds(&mut self) -> (r: Result<Vec<libc::pollfd>, BackendError>)
        ensures
            r is Ok,
            r->Ok_0@.len() == 0,
    {
        Ok(Vec::new())
    }

    fn run(&mut self) -> (r: Result<EventStream, BackendError>)
        ensures
            r is Ok,
            r->Ok_0@.len() == 0,
    {
        Ok(EventStream::empty())
    }

    fn output_event(&mut self, ev: &Event) -> (r: Result<u32, BackendError>)
        ensures
            r is Ok,
            r->Ok_0 == 0,
    {
        Ok(0)
    }
}

} // verus!
