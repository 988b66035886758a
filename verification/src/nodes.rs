//! The nodes that are neither plain filters, modifiers nor generators.
use crate::event::{
    CtrlEvent, CtrlEventImpl, EventView, QuitEvent, SceneNum, SceneSwitchEvent, SceneSwitchValue,
};
use crate::event_stream::EventStream;
use crate::filter_trait::FilterTrait;
use crate::filters::{EventType, Filter};
use vstd::prelude::*;

verus! {

/// Lets every event through.
#[derive(Debug)]
pub struct Pass();

impl FilterTrait for Pass {
    open spec fn deterministic(&self) -> bool {
        true
    }

    open spec fn run_spec(&self, evs: Seq<EventView>) -> Seq<EventView> {
        evs
    }

    open spec fn run_inverse_spec(&self, evs: Seq<EventView>) -> Seq<EventView> {
        Seq::empty()
    }

    open spec fn run_init_spec(&self, evs: Seq<EventView>) -> Seq<EventView> {
        evs
    }

    open spec fn run_exit_spec(&self, evs: Seq<EventView>) -> Seq<EventView> {
        evs
    }

    fn run(&self, evs: &mut EventStream)
        ensures
            final(evs)@ == self.run_spec(old(evs)@),
    {
    }

    fn run_inverse(&self, evs: &mut EventStream)
        ensures
            final(evs)@ == self.run_inverse_spec(old(evs)@),
    {
        evs.clear();
    }

    fn run_init(&self, evs: &mut EventStream)
        ensures
            final(evs)@ == self.run_init_spec(old(evs)@),
    {
    }

    fn run_exit(&self, evs: &mut EventStream)
        ensures
            final(evs)@ == self.run_exit_spec(old(evs)@),
    {
    }
}

/// Drops every event.
#[derive(Debug)]
pub struct Discard();

impl FilterTrait for Discard {
    open spec fn deterministic(&self) -> bool {
        true
    }

    open spec fn run_spec(&self, evs: Seq<EventView>) -> Seq<EventView> {
        Seq::empty()
    }

    open spec fn run_inverse_spec(&self, evs: Seq<EventView>) -> Seq<EventView> {
        evs
    }

    open spec fn run_init_spec(&self, evs: Seq<EventView>) -> Seq<EventView> {
        evs
    }

    open spec fn run_exit_spec(&self, evs: Seq<EventView>) -> Seq<EventView> {
        evs
    }

    fn run(&self, evs: &mut EventStream)
        ensures
            final(evs)@ == self.run_spec(old(evs)@),
    {
        evs.clear();
    }

    fn run_inverse(&self, evs: &mut EventStream)
        ensures
            final(evs)@ == self.run_inverse_spec(old(evs)@),
    {
    }

    fn run_init(&self, evs: &mut EventStream)
        ensures
            final(evs)@ == self.run_init_spec(old(evs)@),
    {
    }

    fn run_exit(&self, evs: &mut EventStream)
        ensures
            final(evs)@ == self.run_exit_spec(old(evs)@),
    {
    }
}

/// Ends the run: where there are events, a quit signal takes their place.
#[derive(Debug)]
pub struct Quit();

impl FilterTrait for Quit {
    open spec fn deterministic(&self) -> bool {
        true
    }

    open spec fn run_spec(&self, evs: Seq<EventView>) -> Seq<EventView> {
        if evs.len() == 0 {
            evs
        } else {
            seq![EventView::Quit]
        }
    }

    open spec fn run_inverse_spec(&self, evs: Seq<EventView>) -> Seq<EventView> {
        evs
    }

    open spec fn run_init_spec(&self, evs: Seq<EventView>) -> Seq<EventView> {
        evs
    }

    open spec fn run_exit_spec(&self, evs: Seq<EventView>) -> Seq<EventView> {
        evs
    }

    fn run(&self, evs: &mut EventStream)
        ensures
            final(evs)@ == self.run_spec(old(evs)@),
    {
        if !evs.is_empty() {
            evs.clear();
            evs.push(QuitEvent());
        }
    }

    fn run_inverse(&self, evs: &mut EventStream)
        ensures
            final(evs)@ == self.run_inverse_spec(old(evs)@),
    {
    }

    fn run_init(&self, evs: &mut EventStream)
        ensures
            final(evs)@ == self.run_init_spec(old(evs)@),
    {
    }

    fn run_exit(&self, evs: &mut EventStream)
        ensures
            final(evs)@ == self.run_exit_spec(old(evs)@),
    {
    }
}

/// Switches to a scene: where there are events, all but the scene switches
/// among them are dropped, and a switch to this scene is added.
#[derive(Debug)]
pub struct SceneSwitch(pub SceneNum);

impl FilterTrait for SceneSwitch {
    open spec fn deterministic(&self) -> bool {
        true
    }

    open spec fn run_spec(&self, evs: Seq<EventView>) -> Seq<EventView> {
        if evs.len() == 0 {
            evs
        } else {
            Filter::Type(EventType::SceneSwitch).kept(evs, true).push(
                EventView::SceneSwitch(SceneSwitchValue::Fixed(self.0)),
            )
        }
    }

    open spec fn run_inverse_spec(&self, evs: Seq<EventView>) -> Seq<EventView> {
        evs
    }

    open spec fn run_init_spec(&self, evs: Seq<EventView>) -> Seq<EventView> {
        evs
    }

    open spec fn run_exit_spec(&self, evs: Seq<EventView>) -> Seq<EventView> {
        evs
    }

    fn run(&self, evs: &mut EventStream)
        ensures
            final(evs)@ == self.run_spec(old(evs)@),
    {
        if evs.is_empty() {
            return ;
        }
        Filter::Type(EventType::SceneSwitch).run(evs);
        evs.push(SceneSwitchEvent(self.0));
    }

    fn run_inverse(&self, evs: &mut EventStream)
        ensures
            final(evs)@ == self.run_inverse_spec(old(evs)@),
    {
    }

    fn run_init(&self, evs: &mut EventStream)
        ensures
            final(evs)@ == self.run_init_spec(old(evs)@),
    {
    }

    fn run_exit(&self, evs: &mut EventStream)
        ensures
            final(evs)@ == self.run_exit_spec(old(evs)@),
    {
    }
}

/// The number of MIDI channels.
pub const CHANNELS: u8 = 16;

/// The controller that silences all notes of a channel.
pub const ALL_NOTES_OFF: u32 = 123;

/// The controller of the sustain pedal.
pub const SUSTAIN: u32 = 64;

/// The events of a MIDI panic: on port 0, first "all notes off" on each of
/// the sixteen channels, then "sustain off" on each of them.
pub open spec fn panic_events() -> Seq<EventView> {
    Seq::new(
        32,
        |i: int|
            if i < 16 {
                EventView::Ctrl(
                    CtrlEventImpl { port: 0, channel: i as u8, ctrl: ALL_NOTES_OFF, value: 0 },
                )
            } else {
                EventView::Ctrl(
                    CtrlEventImpl { port: 0, channel: (i - 16) as u8, ctrl: SUSTAIN, value: 0 },
                )
            },
    )
}

/// Sends a MIDI panic: adds the events of [`panic_events`] to the stream.
#[derive(Debug)]
pub struct Panic();

impl FilterTrait for Panic {
    open spec fn deterministic(&self) -> bool {
        true
    }

    open spec fn run_spec(&self, evs: Seq<EventView>) -> Seq<EventView> {
        evs + panic_events()
    }

    open spec fn run_inverse_spec(&self, evs: Seq<EventView>) -> Seq<EventView> {
        evs
    }

    open spec fn run_init_spec(&self, evs: Seq<EventView>) -> Seq<EventView> {
        evs
    }

    open spec fn run_exit_spec(&self, evs: Seq<EventView>) -> Seq<EventView> {
        evs
    }

    fn run(&self, evs: &mut EventStream)
        ensures
            final(evs)@ == self.run_spec(old(evs)@),
    {
        let mut c: u8 = 0;
        while c < CHANNELS
            invariant
                c <= CHANNELS,
                evs@ == old(evs)@ + panic_events().take(c as int),
            decreases CHANNELS - c,
        {
            evs.push(CtrlEvent(0, c, ALL_NOTES_OFF, 0));
            assert(evs@ =~= old(evs)@ + panic_events().take(c + 1));
            c += 1;
        }
        let mut c: u8 = 0;
        while c < CHANNELS
            invariant
                c <= CHANNELS,
                evs@ == old(evs)@ + panic_events().take(16 + c),
            decreases CHANNELS - c,
        {
            evs.push(CtrlEvent(0, c, SUSTAIN, 0));
            assert(evs@ =~= old(evs)@ + panic_events().take(16 + c + 1));
            c += 1;
        }
        assert(panic_events().take(32) =~= panic_events());
    }

    fn run_inverse(&self, evs: &mut EventStream)
        ensures
            final(evs)@ == self.run_inverse_spec(old(evs)@),
    {
    }

    fn run_init(&self, evs: &mut EventStream)
        ensures
            final(evs)@ == self.run_init_spec(old(evs)@),
    {
    }

    fn run_exit(&self, evs: &mut EventStream)
        ensures
            final(evs)@ == self.run_exit_spec(old(evs)@),
    {
    }
}

/// Marks the place in a patch where the stream is to be shown. The stream
/// passes unchanged.
#[derive(Debug)]
pub struct Print();

/// The text that shows `evs`.
///
/// Formats the stream with `format!` as its `Debug` form; nothing is claimed
/// of the text.
#[verifier::external_body]
fn debug_text(evs: &EventStream) -> String {
    format!("{:?}", evs)
}

impl Print {
    /// The line to show for the stream `evs`: none where the stream is empty.
    pub fn text(&self, evs: &EventStream) -> (line: Option<String>)
        ensures
            line is Some <==> evs@.len() > 0,
    {
        if evs.is_empty() {
            None
        } else {
            Some(debug_text(evs))
        }
    }
}

impl FilterTrait for Print {
    open spec fn deterministic(&self) -> bool {
        true
    }

    open spec fn run_spec(&self, evs: Seq<EventView>) -> Seq<EventView> {
        evs
    }

    open spec fn run_inverse_spec(&self, evs: Seq<EventView>) -> Seq<EventView> {
        evs
    }

    open spec fn run_init_spec(&self, evs: Seq<EventView>) -> Seq<EventView> {
        evs
    }

    open spec fn run_exit_spec(&self, evs: Seq<EventView>) -> Seq<EventView> {
        evs
    }

    fn run(&self, evs: &mut EventStream)
        ensures
            final(evs)@ == self.run_spec(old(evs)@),
    {
    }

    fn run_inverse(&self, evs: &mut EventStream)
        ensures
            final(evs)@ == self.run_inverse_spec(old(evs)@),
    {
    }

    fn run_init(&self, evs: &mut EventStream)
        ensures
            final(evs)@ == self.run_init_spec(old(evs)@),
    {
    }

    fn run_exit(&self, evs: &mut EventStream)
        ensures
            final(evs)@ == self.run_exit_spec(old(evs)@),
    {
    }
}

} // verus!
