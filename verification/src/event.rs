//! Events: the values that travel through a patch.
//!
//! Every event has a mathematical view ([`EventView`]) in which byte strings,
//! addresses and argument lists are sequences. All contracts of the crate are
//! stated over these views, and two events are equal exactly when their views
//! are.
use vstd::prelude::*;
use vstd::std_specs::cmp::PartialEqSpecImpl;

verus! {

/// Number of a scene or of a sub-scene.
pub type SceneNum = u8;

/// Signed distance between two scene numbers; wide enough to compute in.
pub type SceneOffset = i16;

/// Payload of the placeholder event.
#[derive(Debug, Copy, Clone, PartialEq, Eq, Hash, Structural)]
pub struct NoneEventImpl {}

#[derive(Debug, Copy, Clone, PartialEq, Eq, Hash, Structural)]
pub struct NoteOnEventImpl {
    pub port: usize,
    pub channel: u8,
    pub note: u8,
    pub velocity: u8,
}

#[derive(Debug, Copy, Clone, PartialEq, Eq, Hash, Structural)]
pub struct NoteOffEventImpl {
    pub port: usize,
    pub channel: u8,
    pub note: u8,
}

#[derive(Debug, Copy, Clone, PartialEq, Eq, Hash, Structural)]
pub struct CtrlEventImpl {
    pub port: usize,
    pub channel: u8,
    pub ctrl: u32,
    pub value: i32,
}

/// A system exclusive message. The bytes are owned by the event.
#[derive(Debug, Hash)]
pub struct SysExEventImpl {
    pub port: usize,
    pub data: Vec<u8>,
}

#[derive(Debug, Copy, Clone, PartialEq, Eq, Hash, Structural)]
pub struct QuitEventImpl {}

/// Target of a scene or sub-scene switch.
#[derive(Debug, Copy, Clone, PartialEq, Eq, Hash, Structural)]
pub enum SceneSwitchValue {
    /// A scene number as the user counts them.
    Fixed(SceneNum),
    /// A distance from the current scene.
    Offset(SceneOffset),
}

impl Default for SceneSwitchValue {
    fn default() -> (r: Self)
        ensures
            r == SceneSwitchValue::Offset(0),
    {
        SceneSwitchValue::Offset(0)
    }
}

#[derive(Debug, Copy, Clone, PartialEq, Eq, Hash, Structural)]
pub struct SceneSwitchEventImpl {
    pub scene: SceneSwitchValue,
}

#[derive(Debug, Copy, Clone, PartialEq, Eq, Hash, Structural)]
pub struct SubSceneSwitchEventImpl {
    pub subscene: SceneSwitchValue,
}

/// One argument of an OSC message.
///
/// The two floating point kinds hold the IEEE 754 bit pattern of the number,
/// so that equality and hashing of events are structural.
#[derive(Debug, Hash)]
pub enum OscType {
    Int(i32),
    Float(u32),
    String(String),
    Blob(Vec<u8>),
    Time(u32, u32),
    Long(i64),
    Double(u64),
    Char(char),
    Color(u8, u8, u8, u8),
    Midi(u8, u8, u8, u8),
    Bool(bool),
    Array(Vec<OscType>),
    Nil,
    Inf,
}

/// The mathematical value of an [`OscType`].
pub enum OscTypeView {
    Int(i32),
    Float(u32),
    String(Seq<char>),
    Blob(Seq<u8>),
    Time(u32, u32),
    Long(i64),
    Double(u64),
    Char(char),
    Color(u8, u8, u8, u8),
    Midi(u8, u8, u8, u8),
    Bool(bool),
    Array(Seq<OscTypeView>),
    Nil,
    Inf,
}

/// The kind of an OSC argument, without its value.
#[derive(Debug, Copy, Clone, PartialEq, Eq, Hash, Structural)]
pub enum OscTypeTag {
    Int,
    Float,
    String,
    Blob,
    Time,
    Long,
    Double,
    Char,
    Color,
    Midi,
    Bool,
    Array,
    Nil,
    Inf,
}

impl OscTypeView {
    /// The kind of this argument.
    pub open spec fn tag(self) -> OscTypeTag {
        match self {
            OscTypeView::Int(_) => OscTypeTag::Int,
            OscTypeView::Float(_) => OscTypeTag::Float,
            OscTypeView::String(_) => OscTypeTag::String,
            OscTypeView::Blob(_) => OscTypeTag::Blob,
            OscTypeView::Time(_, _) => OscTypeTag::Time,
            OscTypeView::Long(_) => OscTypeTag::Long,
            OscTypeView::Double(_) => OscTypeTag::Double,
            OscTypeView::Char(_) => OscTypeTag::Char,
            OscTypeView::Color(_, _, _, _) => OscTypeTag::Color,
            OscTypeView::Midi(_, _, _, _) => OscTypeTag::Midi,
            OscTypeView::Bool(_) => OscTypeTag::Bool,
            OscTypeView::Array(_) => OscTypeTag::Array,
            OscTypeView::Nil => OscTypeTag::Nil,
            OscTypeView::Inf => OscTypeTag::Inf,
        }
    }
}

/// The views of a list of arguments, in order.
pub open spec fn osc_args_view(args: Seq<OscType>) -> Seq<OscTypeView>
    decreases args,
{
    if args.len() == 0 {
        Seq::empty()
    } else {
        osc_args_view(args.drop_last()).push(args.last()@)
    }
}

impl View for OscType {
    type V = OscTypeView;

    open spec fn view(&self) -> OscTypeView
        decreases self,
    {
        match self {
            OscType::Int(x) => OscTypeView::Int(*x),
            OscType::Float(x) => OscTypeView::Float(*x),
            OscType::String(s) => OscTypeView::String(s@),
            OscType::Blob(b) => OscTypeView::Blob(b@),
            OscType::Time(s, f) => OscTypeView::Time(*s, *f),
            OscType::Long(x) => OscTypeView::Long(*x),
            OscType::Double(x) => OscTypeView::Double(*x),
            OscType::Char(c) => OscTypeView::Char(*c),
            OscType::Color(r, g, b, a) => OscTypeView::Color(*r, *g, *b, *a),
            OscType::Midi(p, s, d1, d2) => OscTypeView::Midi(*p, *s, *d1, *d2),
            OscType::Bool(b) => OscTypeView::Bool(*b),
            OscType::Array(v) => OscTypeView::Array(osc_args_view(v@)),
            OscType::Nil => OscTypeView::Nil,
            OscType::Inf => OscTypeView::Inf,
        }
    }
}

/// The view of an argument list has the list's length, and holds at each
/// place the view of the argument at that place.
pub proof fn lemma_osc_args_view(args: Seq<OscType>)
    ensures
        osc_args_view(args).len() == args.len(),
        forall|i: int| 0 <= i < args.len() ==> #[trigger] osc_args_view(args)[i] == args[i]@,
    decreases args.len(),
{
    if args.len() > 0 {
        lemma_osc_args_view(args.drop_last());
        assert(osc_args_view(args) == osc_args_view(args.drop_last()).push(args.last()@));
    } else {
        assert(osc_args_view(args) == Seq::<OscTypeView>::empty());
    }
}

/// Whether two byte strings hold the same bytes.
pub fn bytes_eq(a: &Vec<u8>, b: &Vec<u8>) -> (r: bool)
    ensures
        r == (a@ == b@),
{
    if a.len() != b.len() {
        return false;
    }
    let mut i: usize = 0;
    while i < a.len()
        invariant
            i <= a.len(),
            a.len() == b.len(),
            forall|j: int| 0 <= j < i ==> a@[j] == b@[j],
        decreases a.len() - i,
    {
        if a[i] != b[i] {
            return false;
        }
        i += 1;
    }
    assert(a@ =~= b@);
    true
}

/// A copy of a byte string.
pub fn bytes_clone(a: &Vec<u8>) -> (r: Vec<u8>)
    ensures
        r@ == a@,
{
    let mut r: Vec<u8> = Vec::new();
    let mut i: usize = 0;
    while i < a.len()
        invariant
            i <= a.len(),
            r@ == a@.take(i as int),
        decreases a.len() - i,
    {
        r.push(a[i]);
        assert(a@.take(i + 1) =~= a@.take(i as int).push(a@[i as int]));
        i += 1;
    }
    assert(a@.take(i as int) =~= a@);
    r
}

/// Whether two argument lists hold equal arguments in the same order.
pub fn osc_args_eq(a: &Vec<OscType>, b: &Vec<OscType>) -> (r: bool)
    ensures
        r == (osc_args_view(a@) == osc_args_view(b@)),
    decreases a,
{
    proof {
        lemma_osc_args_view(a@);
        lemma_osc_args_view(b@);
    }
    if a.len() != b.len() {
        return false;
    }
    let mut i: usize = 0;
    while i < a.len()
        invariant
            i <= a.len(),
            a.len() == b.len(),
            forall|j: int| 0 <= j < i ==> a@[j]@ == b@[j]@,
        decreases a.len() - i,
    {
        if !a[i].eq(&b[i]) {
            proof {
                lemma_osc_args_view(a@);
                lemma_osc_args_view(b@);
                assert(osc_args_view(a@)[i as int] != osc_args_view(b@)[i as int]);
            }
            return false;
        }
        i += 1;
    }
    proof {
        lemma_osc_args_view(a@);
        lemma_osc_args_view(b@);
    }
    assert(osc_args_view(a@) =~= osc_args_view(b@));
    true
}

/// A copy of an argument list.
pub fn osc_args_clone(a: &Vec<OscType>) -> (r: Vec<OscType>)
    ensures
        osc_args_view(r@) == osc_args_view(a@),
    decreases a,
{
    let mut r: Vec<OscType> = Vec::new();
    let mut i: usize = 0;
    while i < a.len()
        invariant
            i <= a.len(),
            r@.len() == i,
            forall|j: int| 0 <= j < i ==> r@[j]@ == a@[j]@,
        decreases a.len() - i,
    {
        r.push(a[i].clone());
        i += 1;
    }
    proof {
        lemma_osc_args_view(a@);
        lemma_osc_args_view(r@);
    }
    assert(osc_args_view(r@) =~= osc_args_view(a@));
    r
}

impl OscType {
    /// The kind of this argument.
    pub fn tag(&self) -> (t: OscTypeTag)
        ensures
            t == self@.tag(),
    {
        match self {
            OscType::Int(_) => OscTypeTag::Int,
            OscType::Float(_) => OscTypeTag::Float,
            OscType::String(_) => OscTypeTag::String,
            OscType::Blob(_) => OscTypeTag::Blob,
            OscType::Time(_, _) => OscTypeTag::Time,
            OscType::Long(_) => OscTypeTag::Long,
            OscType::Double(_) => OscTypeTag::Double,
            OscType::Char(_) => OscTypeTag::Char,
            OscType::Color(_, _, _, _) => OscTypeTag::Color,
            OscType::Midi(_, _, _, _) => OscTypeTag::Midi,
            OscType::Bool(_) => OscTypeTag::Bool,
            OscType::Array(_) => OscTypeTag::Array,
            OscType::Nil => OscTypeTag::Nil,
            OscType::Inf => OscTypeTag::Inf,
        }
    }
}

impl PartialEq for OscType {
    fn eq(&self, other: &Self) -> (r: bool)
        decreases self,
    {
        match (self, other) {
            (OscType::Int(a), OscType::Int(b)) => *a == *b,
            (OscType::Float(a), OscType::Float(b)) => *a == *b,
            (OscType::String(a), OscType::String(b)) => *a == *b,
            (OscType::Blob(a), OscType::Blob(b)) => bytes_eq(a, b),
            (OscType::Time(a, b), OscType::Time(c, d)) => *a == *c && *b == *d,
            (OscType::Long(a), OscType::Long(b)) => *a == *b,
            (OscType::Double(a), OscType::Double(b)) => *a == *b,
            (OscType::Char(a), OscType::Char(b)) => *a == *b,
            (OscType::Color(a, b, c, d), OscType::Color(e, f, g, h)) => *a == *e && *b == *f
                && *c == *g && *d == *h,
            (OscType::Midi(a, b, c, d), OscType::Midi(e, f, g, h)) => *a == *e && *b == *f && *c
                == *g && *d == *h,
            (OscType::Bool(a), OscType::Bool(b)) => *a == *b,
            (OscType::Array(a), OscType::Array(b)) => osc_args_eq(a, b),
            (OscType::Nil, OscType::Nil) => true,
            (OscType::Inf, OscType::Inf) => true,
            _ => false,
        }
    }
}

impl PartialEqSpecImpl for OscType {
    open spec fn obeys_eq_spec() -> bool {
        true
    }

    open spec fn eq_spec(&self, other: &Self) -> bool {
        self@ == other@
    }
}

impl Eq for OscType {

}

impl Clone for OscType {
    fn clone(&self) -> (r: Self)
        ensures
            r@ == self@,
        decreases self,
    {
        match self {
            OscType::Int(x) => OscType::Int(*x),
            OscType::Float(x) => OscType::Float(*x),
            OscType::String(s) => OscType::String(s.clone()),
            OscType::Blob(b) => OscType::Blob(bytes_clone(b)),
            OscType::Time(s, f) => OscType::Time(*s, *f),
            OscType::Long(x) => OscType::Long(*x),
            OscType::Double(x) => OscType::Double(*x),
            OscType::Char(c) => OscType::Char(*c),
            OscType::Color(r, g, b, a) => OscType::Color(*r, *g, *b, *a),
            OscType::Midi(p, s, d1, d2) => OscType::Midi(*p, *s, *d1, *d2),
            OscType::Bool(b) => OscType::Bool(*b),
            OscType::Array(v) => OscType::Array(osc_args_clone(v)),
            OscType::Nil => OscType::Nil,
            OscType::Inf => OscType::Inf,
        }
    }
}

/// An OSC message: the port it belongs to, its address and its arguments.
#[derive(Debug, Hash)]
pub struct OscEventImpl {
    pub port: usize,
    pub addr: String,
    pub args: Vec<OscType>,
}

/// One MIDI or OSC message, or one control signal.
#[derive(Debug, Hash)]
pub enum Event {
    /// Placeholder that keeps a stream non-empty.
    Nothing(NoneEventImpl),
    NoteOn(NoteOnEventImpl),
    NoteOff(NoteOffEventImpl),
    Ctrl(CtrlEventImpl),
    SysEx(SysExEventImpl),
    SceneSwitch(SceneSwitchEventImpl),
    SubSceneSwitch(SubSceneSwitchEventImpl),
    Quit(QuitEventImpl),
    Osc(OscEventImpl),
}

/// The mathematical value of an [`Event`].
pub enum EventView {
    /// The placeholder.
    Nothing,
    NoteOn(NoteOnEventImpl),
    NoteOff(NoteOffEventImpl),
    Ctrl(CtrlEventImpl),
    SysEx { port: usize, data: Seq<u8> },
    SceneSwitch(SceneSwitchValue),
    SubSceneSwitch(SceneSwitchValue),
    Quit,
    Osc { port: usize, addr: Seq<char>, args: Seq<OscTypeView> },
}

impl View for Event {
    type V = EventView;

    open spec fn view(&self) -> EventView {
        match self {
            Event::Nothing(_) => EventView::Nothing,
            Event::NoteOn(e) => EventView::NoteOn(*e),
            Event::NoteOff(e) => EventView::NoteOff(*e),
            Event::Ctrl(e) => EventView::Ctrl(*e),
            Event::SysEx(e) => EventView::SysEx { port: e.port, data: e.data@ },
            Event::SceneSwitch(e) => EventView::SceneSwitch(e.scene),
            Event::SubSceneSwitch(e) => EventView::SubSceneSwitch(e.subscene),
            Event::Quit(_) => EventView::Quit,
            Event::Osc(e) => EventView::Osc {
                port: e.port,
                addr: e.addr@,
                args: osc_args_view(e.args@),
            },
        }
    }
}

impl EventView {
    /// Whether the event is a signal to the runner rather than a message:
    /// a quit, a scene switch or a sub-scene switch.
    pub open spec fn is_control(self) -> bool {
        self is Quit || self is SceneSwitch || self is SubSceneSwitch
    }

    /// The port of a message; control signals and the placeholder have none.
    pub open spec fn port(self) -> Option<usize> {
        match self {
            EventView::NoteOn(e) => Some(e.port),
            EventView::NoteOff(e) => Some(e.port),
            EventView::Ctrl(e) => Some(e.port),
            EventView::SysEx { port, .. } => Some(port),
            EventView::Osc { port, .. } => Some(port),
            _ => None,
        }
    }

    /// The channel of a note or controller message.
    pub open spec fn channel(self) -> Option<u8> {
        match self {
            EventView::NoteOn(e) => Some(e.channel),
            EventView::NoteOff(e) => Some(e.channel),
            EventView::Ctrl(e) => Some(e.channel),
            _ => None,
        }
    }

    /// The key of a note message.
    pub open spec fn note(self) -> Option<u8> {
        match self {
            EventView::NoteOn(e) => Some(e.note),
            EventView::NoteOff(e) => Some(e.note),
            _ => None,
        }
    }
}

impl Default for Event {
    fn default() -> (r: Self)
        ensures
            r@ == EventView::Nothing,
    {
        Event::Nothing(NoneEventImpl {  })
    }
}

impl PartialEq for Event {
    fn eq(&self, other: &Self) -> (r: bool) {
        match (self, other) {
            (Event::Nothing(_), Event::Nothing(_)) => true,
            (Event::NoteOn(a), Event::NoteOn(b)) => a.port == b.port && a.channel == b.channel
                && a.note == b.note && a.velocity == b.velocity,
            (Event::NoteOff(a), Event::NoteOff(b)) => a.port == b.port && a.channel == b.channel
                && a.note == b.note,
            (Event::Ctrl(a), Event::Ctrl(b)) => a.port == b.port && a.channel == b.channel
                && a.ctrl == b.ctrl && a.value == b.value,
            (Event::SysEx(a), Event::SysEx(b)) => a.port == b.port && bytes_eq(&a.data, &b.data),
            (Event::SceneSwitch(a), Event::SceneSwitch(b)) => scene_switch_value_eq(
                a.scene,
                b.scene,
            ),
            (Event::SubSceneSwitch(a), Event::SubSceneSwitch(b)) => scene_switch_value_eq(
                a.subscene,
                b.subscene,
            ),
            (Event::Quit(_), Event::Quit(_)) => true,
            (Event::Osc(a), Event::Osc(b)) => a.port == b.port && a.addr == b.addr && osc_args_eq(
                &a.args,
                &b.args,
            ),
            _ => false,
        }
    }
}

impl PartialEqSpecImpl for Event {
    open spec fn obeys_eq_spec() -> bool {
        true
    }

    open spec fn eq_spec(&self, other: &Self) -> bool {
        self@ == other@
    }
}

impl Eq for Event {

}

impl Clone for Event {
    fn clone(&self) -> (r: Self)
        ensures
            r@ == self@,
    {
        match self {
            Event::Nothing(e) => Event::Nothing(*e),
            Event::NoteOn(e) => Event::NoteOn(*e),
            Event::NoteOff(e) => Event::NoteOff(*e),
            Event::Ctrl(e) => Event::Ctrl(*e),
            Event::SysEx(e) => Event::SysEx(
                SysExEventImpl { port: e.port, data: bytes_clone(&e.data) },
            ),
            Event::SceneSwitch(e) => Event::SceneSwitch(*e),
            Event::SubSceneSwitch(e) => Event::SubSceneSwitch(*e),
            Event::Quit(e) => Event::Quit(*e),
            Event::Osc(e) => Event::Osc(
                OscEventImpl {
                    port: e.port,
                    addr: e.addr.clone(),
                    args: osc_args_clone(&e.args),
                },
            ),
        }
    }
}

/// Whether two switch targets are the same.
pub fn scene_switch_value_eq(a: SceneSwitchValue, b: SceneSwitchValue) -> (r: bool)
    ensures
        r == (a == b),
{
    match (a, b) {
        (SceneSwitchValue::Fixed(x), SceneSwitchValue::Fixed(y)) => x == y,
        (SceneSwitchValue::Offset(x), SceneSwitchValue::Offset(y)) => x == y,
        _ => false,
    }
}

impl Event {
    /// Whether the event is a signal to the runner rather than a message.
    pub fn is_control(&self) -> (r: bool)
        ensures
            r == self@.is_control(),
    {
        match self {
            Event::Quit(_) => true,
            Event::SceneSwitch(_) => true,
            Event::SubSceneSwitch(_) => true,
            _ => false,
        }
    }
}

/// The placeholder event.
#[allow(non_snake_case)]
pub fn NoneEvent() -> (ev: Event)
    ensures
        ev@ == EventView::Nothing,
{
    Event::Nothing(NoneEventImpl {  })
}

/// A note-on message.
#[allow(non_snake_case)]
pub fn NoteOnEvent(port: usize, channel: u8, note: u8, velocity: u8) -> (ev: Event)
    ensures
        ev@ == EventView::NoteOn(NoteOnEventImpl { port, channel, note, velocity }),
{
    Event::NoteOn(NoteOnEventImpl { port, channel, note, velocity })
}

/// A note-off message.
#[allow(non_snake_case)]
pub fn NoteOffEvent(port: usize, channel: u8, note: u8) -> (ev: Event)
    ensures
        ev@ == EventView::NoteOff(NoteOffEventImpl { port, channel, note }),
{
    Event::NoteOff(NoteOffEventImpl { port, channel, note })
}

/// A controller change.
#[allow(non_snake_case)]
pub fn CtrlEvent(port: usize, channel: u8, ctrl: u32, value: i32) -> (ev: Event)
    ensures
        ev@ == EventView::Ctrl(CtrlEventImpl { port, channel, ctrl, value }),
{
    Event::Ctrl(CtrlEventImpl { port, channel, ctrl, value })
}

/// A system exclusive message holding a copy of `data`.
#[allow(non_snake_case)]
pub fn SysExEvent(port: usize, data: &[u8]) -> (ev: Event)
    ensures
        ev@ == (EventView::SysEx { port, data: data@ }),
{
    let mut bytes: Vec<u8> = Vec::new();
    let mut i: usize = 0;
    while i < data.len()
        invariant
            i <= data.len(),
            bytes@ == data@.take(i as int),
        decreases data.len() - i,
    {
        bytes.push(data[i]);
        assert(data@.take(i + 1) =~= data@.take(i as int).push(data@[i as int]));
        i += 1;
    }
    assert(data@.take(i as int) =~= data@);
    Event::SysEx(SysExEventImpl { port, data: bytes })
}

/// The signal that ends the run.
#[allow(non_snake_case)]
pub fn QuitEvent() -> (ev: Event)
    ensures
        ev@ == EventView::Quit,
{
    Event::Quit(QuitEventImpl {  })
}

/// A switch to the scene that the user counts as `scene`.
#[allow(non_snake_case)]
pub fn SceneSwitchEvent(scene: SceneNum) -> (ev: Event)
    ensures
        ev@ == EventView::SceneSwitch(SceneSwitchValue::Fixed(scene)),
{
    Event::SceneSwitch(SceneSwitchEventImpl { scene: SceneSwitchValue::Fixed(scene) })
}

/// A switch to the scene `offset` places after the current one.
#[allow(non_snake_case)]
pub fn SceneSwitchOffsetEvent(offset: SceneOffset) -> (ev: Event)
    ensures
        ev@ == EventView::SceneSwitch(SceneSwitchValue::Offset(offset)),
{
    Event::SceneSwitch(SceneSwitchEventImpl { scene: SceneSwitchValue::Offset(offset) })
}

/// A switch to the sub-scene that the user counts as `subscene`.
#[allow(non_snake_case)]
pub fn SubSceneSwitchEvent(subscene: SceneNum) -> (ev: Event)
    ensures
        ev@ == EventView::SubSceneSwitch(SceneSwitchValue::Fixed(subscene)),
{
    Event::SubSceneSwitch(SubSceneSwitchEventImpl { subscene: SceneSwitchValue::Fixed(subscene) })
}

/// A switch to the sub-scene `offset` places after the current one.
#[allow(non_snake_case)]
pub fn SubSceneSwitchOffsetEvent(offset: SceneOffset) -> (ev: Event)
    ensures
        ev@ == EventView::SubSceneSwitch(SceneSwitchValue::Offset(offset)),
{
    Event::SubSceneSwitch(
        SubSceneSwitchEventImpl { subscene: SceneSwitchValue::Offset(offset) },
    )
}

/// An OSC message.
#[allow(non_snake_case)]
pub fn OscEvent(port: usize, addr: String, args: Vec<OscType>) -> (ev: Event)
    ensures
        ev@ == (EventView::Osc { port, addr: addr@, args: osc_args_view(args@) }),
{
    Event::Osc(OscEventImpl { port, addr, args })
}

} // verus!
