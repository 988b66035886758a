//! OSC on the wire: packets and the messages in them, the framing of
//! packets on a stream, and the choice of the port that a message leaves by.
use crate::backend::PortNum;
use crate::event::{osc_args_clone, osc_args_view, Event, EventView, OscEventImpl, OscType};
use crate::event_stream::EventStream;
use vstd::prelude::*;

verus! {

/// An OSC message as it travels: an address and arguments.
#[derive(Debug)]
pub struct OscMessage {
    pub addr: String,
    pub args: Vec<OscType>,
}

/// An OSC packet: one message, or a bundle of packets with a time tag.
#[derive(Debug)]
pub enum OscPacket {
    Message(OscMessage),
    Bundle { seconds: u32, fractional: u32, content: Vec<OscPacket> },
}

impl OscMessage {
    /// The event that the message becomes: an OSC event on port 0.
    pub open spec fn event(&self) -> EventView {
        EventView::Osc { port: 0, addr: self.addr@, args: osc_args_view(self.args@) }
    }

    /// The event that the message becomes.
    pub fn to_event(&self) -> (ev: Event)
        ensures
            ev@ == self.event(),
    {
        Event::Osc(
            OscEventImpl { port: 0, addr: self.addr.clone(), args: osc_args_clone(&self.args) },
        )
    }
}

/// The messages in `packets` as events, in order, bundles opened.
pub open spec fn packets_messages(packets: Seq<OscPacket>) -> Seq<EventView>
    decreases packets, 0nat,
{
    if packets.len() == 0 {
        Seq::empty()
    } else {
        packets_messages(packets.drop_last()) + packets.last().messages()
    }
}

impl OscPacket {
    /// The messages in the packet as events, in order: the message itself,
    /// or the messages of the packets of the bundle, to any depth.
    pub open spec fn messages(&self) -> Seq<EventView>
        decreases self, 1nat,
    {
        match self {
            OscPacket::Message(m) => seq![m.event()],
            OscPacket::Bundle { content, .. } => packets_messages(content@),
        }
    }

    /// Adds the messages in the packet to `out`.
    pub fn collect_messages(&self, out: &mut EventStream)
        ensures
            final(out)@ == old(out)@ + self.messages(),
        decreases self,
    {
        match self {
            OscPacket::Message(m) => {
                out.push(m.to_event());
                assert(out@ =~= old(out)@ + self.messages());
            },
            OscPacket::Bundle { content, .. } => {
                let mut i: usize = 0;
                while i < content.len()
                    invariant
                        i <= content.len(),
                        self matches OscPacket::Bundle { content: c, .. } && c == content,
                        out@ == old(out)@ + packets_messages(content@.take(i as int)),
                    decreases content.len() - i,
                {
                    proof {
                        assert(content@.take(i + 1).drop_last() =~= content@.take(i as int));
                    }
                    content[i].collect_messages(out);
                    assert(out@ =~= old(out)@ + packets_messages(content@.take(i + 1)));
                    i += 1;
                }
                assert(content@.take(i as int) =~= content@);
            },
        }
    }
}

/// The messages in `packet` as events.
pub fn get_messages_from_packet(packet: &OscPacket) -> (out: EventStream)
    ensures
        out@ == packet.messages(),
{
    let mut out = EventStream::empty();
    packet.collect_messages(&mut out);
    out
}

/// The messages of what decoding one packet gave: those in the packet, and
/// none where the packet was malformed and decoding gave nothing.
pub open spec fn decoded_messages(decoded: Option<OscPacket>) -> Seq<EventView> {
    match decoded {
        Some(packet) => packet.messages(),
        None => Seq::empty(),
    }
}

/// The messages of what decoding each of several packets gave, in order.
pub open spec fn all_decoded_messages(decoded: Seq<Option<OscPacket>>) -> Seq<EventView>
    decreases decoded.len(),
{
    if decoded.len() == 0 {
        Seq::empty()
    } else {
        all_decoded_messages(decoded.drop_last()) + decoded_messages(decoded.last())
    }
}

/// The events of a datagram, given what decoding it gave: a malformed
/// packet gives no events.
pub fn decode_data(decoded: &Option<OscPacket>) -> (out: EventStream)
    ensures
        out@ == decoded_messages(*decoded),
{
    match decoded {
        Some(packet) => get_messages_from_packet(packet),
        None => EventStream::empty(),
    }
}

/// The events of the framed packets of a stream, given, for each frame in
/// order, what decoding it gave.
pub fn decode_data_tcp(decoded: &Vec<Option<OscPacket>>) -> (out: EventStream)
    ensures
        out@ == all_decoded_messages(decoded@),
{
    let mut out = EventStream::empty();
    let mut i: usize = 0;
    while i < decoded.len()
        invariant
            i <= decoded.len(),
            out@ == all_decoded_messages(decoded@.take(i as int)),
        decreases decoded.len() - i,
    {
        proof {
            assert(decoded@.take(i + 1).drop_last() =~= decoded@.take(i as int));
        }
        out.extend(decode_data(&decoded[i]));
        i += 1;
    }
    assert(decoded@.take(i as int) =~= decoded@);
    out
}

/// The number that four bytes stand for, the first byte counting most.
pub open spec fn be_u32(b: Seq<u8>) -> int
    recommends
        b.len() == 4,
{
    b[0] * 0x100_0000 + b[1] * 0x1_0000 + b[2] * 0x100 + b[3]
}

/// The four bytes that stand for `n`, the first byte counting most.
pub open spec fn be_bytes(n: u32) -> Seq<u8> {
    seq![
        (n / 0x100_0000) as u8,
        ((n / 0x1_0000) % 0x100) as u8,
        ((n / 0x100) % 0x100) as u8,
        (n % 0x100) as u8,
    ]
}

/// The longest packet that can be framed.
pub const MAX_FRAME: usize = 0x7fff_ffff;

/// `packet` as it travels on a stream: its length in four bytes, then its bytes.
pub open spec fn framed(packet: Seq<u8>) -> Seq<u8> {
    be_bytes(packet.len() as u32) + packet
}

/// The packets that stand in `data`, one frame after the other, up to the
/// first frame that is not whole.
pub open spec fn frames(data: Seq<u8>) -> Seq<Seq<u8>>
    decreases data.len(),
{
    if data.len() < 4 {
        Seq::empty()
    } else {
        let n = be_u32(data.take(4));
        if n > MAX_FRAME || n > data.len() - 4 {
            Seq::empty()
        } else {
            seq![data.subrange(4, 4 + n)] + frames(data.skip(4 + n))
        }
    }
}

/// The byte strings of a list, in order.
pub open spec fn byte_strings(v: Seq<Vec<u8>>) -> Seq<Seq<u8>> {
    v.map_values(|x: Vec<u8>| x@)
}

/// Four bytes made from a number stand for that number.
pub proof fn lemma_be_round_trip(n: u32)
    ensures
        be_bytes(n).len() == 4,
        be_u32(be_bytes(n)) == n,
{
    let b = be_bytes(n);
    assert(b[0] == n / 0x100_0000);
    assert(b[1] == (n / 0x1_0000) % 0x100);
    assert(b[2] == (n / 0x100) % 0x100);
    assert(b[3] == n % 0x100);
}

/// A framed packet, with anything behind it, is read back as that packet
/// and then what the rest holds.
pub proof fn lemma_frames_of_framed(packet: Seq<u8>, rest: Seq<u8>)
    requires
        packet.len() <= MAX_FRAME,
    ensures
        frames(framed(packet) + rest) == seq![packet] + frames(rest),
{
    let data = framed(packet) + rest;
    lemma_be_round_trip(packet.len() as u32);
    assert(data.take(4) =~= be_bytes(packet.len() as u32));
    assert(data.subrange(4, 4 + packet.len() as int) =~= packet);
    assert(data.skip(4 + packet.len() as int) =~= rest);
}

/// `packet` as it travels on a stream, where it is short enough to be framed.
pub fn frame(packet: &[u8]) -> (r: Option<Vec<u8>>)
    ensures
        match r {
            Some(out) => packet@.len() <= MAX_FRAME && out@ == framed(packet@),
            None => packet@.len() > MAX_FRAME,
        },
{
    if packet.len() > MAX_FRAME {
        return None;
    }
    let n: u32 = packet.len() as u32;
    let mut out: Vec<u8> = Vec::new();
    out.push((n / 0x100_0000) as u8);
    out.push(((n / 0x1_0000) % 0x100) as u8);
    out.push(((n / 0x100) % 0x100) as u8);
    out.push((n % 0x100) as u8);
    assert(out@ =~= be_bytes(n));
    let mut i: usize = 0;
    while i < packet.len()
        invariant
            i <= packet.len(),
            out@ == be_bytes(n) + packet@.take(i as int),
        decreases packet.len() - i,
    {
        out.push(packet[i]);
        assert(out@ =~= be_bytes(n) + packet@.take(i + 1));
        i += 1;
    }
    assert(packet@.take(i as int) =~= packet@);
    Some(out)
}

/// The packets that stand in `data`, one frame after the other, up to the
/// first frame that is not whole.
pub fn split_frames(data: &[u8]) -> (r: Vec<Vec<u8>>)
    ensures
        byte_strings(r@) == frames(data@),
{
    let mut out: Vec<Vec<u8>> = Vec::new();
    let mut i: usize = 0;
    assert(data@.skip(0) =~= data@);
    assert(byte_strings(out@) =~= Seq::<Seq<u8>>::empty());
    loop
        invariant
            i <= data.len(),
            frames(data@) == byte_strings(out@) + frames(data@.skip(i as int)),
        ensures
            frames(data@) == byte_strings(out@),
        decreases data.len() - i,
    {
        let ghost rest = data@.skip(i as int);
        if data.len() - i < 4 {
            assert(byte_strings(out@) + frames(rest) =~= byte_strings(out@));
            break ;
        }
        let n: u32 = data[i] as u32 * 0x100_0000 + data[i + 1] as u32 * 0x1_0000
            + data[i + 2] as u32 * 0x100 + data[i + 3] as u32;
        assert(n == be_u32(rest.take(4)));
        if n as usize > MAX_FRAME || n as usize > data.len() - 4 - i {
            assert(byte_strings(out@) + frames(rest) =~= byte_strings(out@));
            break ;
        }
        let mut packet: Vec<u8> = Vec::new();
        let mut j: usize = 0;
        while j < n as usize
            invariant
                j <= n,
                i + 4 + n <= data.len(),
                packet@ == data@.subrange(i + 4, i + 4 + j),
            decreases n - j,
        {
            packet.push(data[i + 4 + j]);
            assert(packet@ =~= data@.subrange(i + 4, i + 4 + j + 1));
            j += 1;
        }
        proof {
            assert(packet@ =~= rest.subrange(4, 4 + n));
            assert(rest.skip(4 + n) =~= data@.skip(i + 4 + n));
            assert(byte_strings(out@.push(packet)) =~= byte_strings(out@) + seq![packet@]);
        }
        out.push(packet);
        i = i + 4 + n as usize;
    }
    out
}

/// The port by which an OSC message for port `port` leaves, given the
/// output ports that there are.
///
/// Where there is one port only, it is that one; else it is `port` if
/// that is one of the ports.
pub open spec fn out_port_for(port: PortNum, ports: Seq<PortNum>) -> Option<PortNum> {
    if ports.len() == 1 {
        Some(ports[0])
    } else if ports.contains(port) {
        Some(port)
    } else {
        None
    }
}

/// The port by which an OSC message for port `port` leaves.
pub fn choose_out_port(port: PortNum, ports: &Vec<PortNum>) -> (r: Option<PortNum>)
    ensures
        r == out_port_for(port, ports@),
{
    if ports.len() == 1 {
        return Some(ports[0]);
    }
    let mut i: usize = 0;
    while i < ports.len()
        invariant
            i <= ports.len(),
            forall|j: int| 0 <= j < i ==> ports@[j] != port,
        decreases ports.len() - i,
    {
        if ports[i] == port {
            return Some(port);
        }
        i += 1;
    }
    None
}

} // verus!
