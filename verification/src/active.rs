//! The leader half of the keyboard: its own matrix, the layer engine, and the
//! decoder of the frames that the follower sends.

use keyberon::key_code::KbHidReport;
use keyberon::layout::Layout;
use vstd::prelude::*;
use crate::ceiling::keyboard_of;
use crate::debounce::{grid, DebounceState, Frame};
use crate::engine::{
    engine_event, engine_events, engine_new, engine_report, engine_tick, grids_of, layout_event,
    layout_new, layout_report, layout_tick,
};
use crate::layout::Layer;
use crate::{
    is_digit, parsed, Event, SiberonPassive, DIGIT_NINE, DIGIT_ZERO, TAG_PRESS, TAG_RELEASE,
    TERMINATOR,
};

verus! {

/// What the layer engine asks of the firmware besides key codes.
#[derive(Clone, Copy, Debug, PartialEq, Eq, Structural)]
pub enum CustomEvent {
    /// Nothing.
    NoEvent,
    /// A key with a custom action went down.
    Press,
    /// A key with a custom action came up.
    Release,
}

/// What one polling cycle hands on: the engine's request and the report for
/// the host.
#[derive(Debug)]
pub struct Poll {
    /// What the engine asked for at the tick.
    pub custom_event: CustomEvent,
    /// The keys that are down after the tick.
    pub report: KbHidReport,
}

/// The leader half: the debouncer of its own matrix and the layer engine.
pub struct SiberonActive {
    passive: SiberonPassive,
    layout: Layout,
}

impl SiberonActive {
    /// What the debouncer of the leader's matrix holds.
    pub closed spec fn debounce(&self) -> DebounceState {
        self.passive@
    }

    /// The state of the layer engine.
    pub closed spec fn engine(&self) -> Layout {
        self.layout
    }

    /// A leader on which no key is down, with an engine made from `layers`.
    /// The engine keeps its copy of the layers for as long as the program
    /// runs, so a program makes one leader, at its start.
    pub fn init(layers: &[Layer]) -> (s: Self)
        ensures
            s.debounce() == SiberonPassive::init_state(),
            s.engine() == engine_new(grids_of(layers@)),
    {
        let passive = SiberonPassive::init();
        let layout = layout_new(layers);
        SiberonActive { passive, layout }
    }

    /// The report of the keys that are down now. Nothing changes.
    pub fn report(&self) -> (r: KbHidReport)
        ensures
            r == engine_report(self.engine()),
            r == keyboard_of(*self).reported().report,
    {
        layout_report(&self.layout)
    }

    /// Takes one sample of the leader's matrix and gives the engine the key
    /// changes that it confirms, in their order.
    pub fn process_events(&mut self, frame: Frame)
        ensures
            final(self).debounce() == old(self).debounce().step(grid(frame)),
            final(self).engine() == engine_events(
                old(self).engine(),
                old(self).debounce().emitted(grid(frame)),
            ),
            keyboard_of(*final(self)) == keyboard_of(*old(self)).scanned(grid(frame)),
    {
        let events = self.passive.events(frame);
        let mut k: usize = 0;
        while k < events.len()
            invariant
                0 <= k <= events@.len(),
                self.passive@ == old(self).passive@.step(grid(frame)),
                self.layout == engine_events(old(self).layout, events@.take(k as int)),
            decreases events@.len() - k,
        {
            assert(events@.take(k + 1).drop_last() == events@.take(k as int));
            layout_event(&mut self.layout, events[k]);
            k += 1;
        }
        assert(events@.take(k as int) == events@);
    }

    /// Gives the engine one key change, from either half.
    pub fn handle_event(&mut self, event: Event)
        ensures
            final(self).debounce() == old(self).debounce(),
            final(self).engine() == engine_event(old(self).engine(), event),
            keyboard_of(*final(self)) == keyboard_of(*old(self)).handled(event),
    {
        layout_event(&mut self.layout, event);
    }

    /// Gives the engine one tick. This engine asks for nothing in return.
    pub fn tick(&mut self) -> (custom_event: CustomEvent)
        ensures
            final(self).debounce() == old(self).debounce(),
            final(self).engine() == engine_tick(old(self).engine()),
            keyboard_of(*final(self)) == keyboard_of(*old(self)).ticked(),
            custom_event == CustomEvent::NoEvent,
    {
        layout_tick(&mut self.layout);
        CustomEvent::NoEvent
    }

    /// One polling cycle: the key changes of the leader's matrix go to the
    /// engine, then one tick, and the report is taken of what results.
    pub fn poll(&mut self, frame: Frame) -> (poll: Poll)
        ensures
            final(self).debounce() == old(self).debounce().step(grid(frame)),
            final(self).engine() == engine_tick(
                engine_events(old(self).engine(), old(self).debounce().emitted(grid(frame))),
            ),
            poll.custom_event == CustomEvent::NoEvent,
            poll.report == engine_report(final(self).engine()),
            keyboard_of(*final(self)) == keyboard_of(*old(self)).polled(grid(frame)),
            poll == keyboard_of(*final(self)).reported(),
    {
        self.process_events(frame);
        let custom_event = self.tick();
        let report = self.report();
        Poll { custom_event, report }
    }
}

/// The largest shift of a coordinate: with it the largest digit still gives a
/// coordinate that fits a byte.
pub const MAX_SHIFT: u8 = 246;

/// Whether the digit `byte`, if it is one, still fits a byte once `shift` is
/// added to its value.
pub open spec fn digit_fits(byte: u8, shift: u8) -> bool {
    is_digit(byte) ==> byte - DIGIT_ZERO + shift <= u8::MAX
}

/// Whether reading `bytes` with `shift` stays inside a byte: wherever the
/// frame is read as far as a coordinate, the shifted coordinate fits.
pub open spec fn frame_fits(bytes: Seq<u8>, shift: (u8, u8)) -> bool {
    bytes.len() == 4 && bytes[3] == TERMINATOR && (bytes[0] == TAG_PRESS || bytes[0]
        == TAG_RELEASE) ==> digit_fits(bytes[1], shift.0) && (is_digit(bytes[1]) ==> digit_fits(
        bytes[2],
        shift.1,
    ))
}

/// `e` with `shift.0` added to its first coordinate and `shift.1` to its
/// second.
pub open spec fn shifted(e: Event, shift: (u8, u8)) -> Event {
    match e {
        Event::Press(i, j) => Event::Press((i + shift.0) as u8, (j + shift.1) as u8),
        Event::Release(i, j) => Event::Release((i + shift.0) as u8, (j + shift.1) as u8),
    }
}

/// The shifted event that `bytes` carry, if they are a frame.
pub open spec fn decoded(bytes: Seq<u8>, shift: (u8, u8)) -> Option<Event> {
    match parsed(bytes) {
        Some(e) => Some(shifted(e, shift)),
        None => None,
    }
}

/// Reads a frame and shifts the event it carries. Anything that is not a
/// frame is an error.
pub fn de(bytes: &[u8], shift: (u8, u8)) -> (r: Result<Event, ()>)
    requires
        frame_fits(bytes@, shift),
    ensures
        r == match decoded(bytes@, shift) {
            Some(e) => Ok::<Event, ()>(e),
            None => Err::<Event, ()>(()),
        },
{
    if bytes.len() != 4 || bytes[3] != TERMINATOR {
        return Err(());
    }
    if bytes[0] == TAG_PRESS {
        let i = de_digit(bytes[1], shift.0)?;
        let j = de_digit(bytes[2], shift.1)?;
        Ok(Event::Press(i, j))
    } else if bytes[0] == TAG_RELEASE {
        let i = de_digit(bytes[1], shift.0)?;
        let j = de_digit(bytes[2], shift.1)?;
        Ok(Event::Release(i, j))
    } else {
        Err(())
    }
}

/// Reads one ASCII decimal digit and adds `shift` to its value.
pub fn de_digit(byte: u8, shift: u8) -> (r: Result<u8, ()>)
    requires
        digit_fits(byte, shift),
    ensures
        r == (if is_digit(byte) {
            Ok::<u8, ()>((byte - DIGIT_ZERO + shift) as u8)
        } else {
            Err::<u8, ()>(())
        }),
{
    if byte >= DIGIT_ZERO && byte <= DIGIT_NINE {
        Ok((byte - DIGIT_ZERO) + shift)
    } else {
        Err(())
    }
}

/// The window once `byte` has come in: the oldest byte is gone, the others
/// have moved up, and `byte` is the last.
pub open spec fn slid(window: Seq<u8>, byte: u8) -> Seq<u8> {
    seq![window[1], window[2], window[3], byte]
}

/// The window once each of `bytes` has come in.
pub open spec fn window_after(window: Seq<u8>, bytes: Seq<u8>) -> Seq<u8>
    decreases bytes.len(),
{
    if bytes.len() == 0 {
        window
    } else {
        slid(window_after(window, bytes.drop_last()), bytes.last())
    }
}

/// The events that a decoder with this window and shift gives while `bytes`
/// come in, in their order.
pub open spec fn stream_events(window: Seq<u8>, shift: (u8, u8), bytes: Seq<u8>) -> Seq<Event>
    decreases bytes.len(),
{
    if bytes.len() == 0 {
        Seq::empty()
    } else {
        let before = stream_events(window, shift, bytes.drop_last());
        match decoded(window_after(window, bytes), shift) {
            Some(e) => before.push(e),
            None => before,
        }
    }
}

/// How much of a frame the end of the window may already hold: 3 when its
/// last three bytes are a tag and two digits, 2 when its last two are a tag
/// and a digit, 1 when its last is a tag, else 0.
pub open spec fn frame_begun(window: Seq<u8>) -> nat {
    if is_tag(window[1]) && is_digit(window[2]) && is_digit(window[3]) {
        3
    } else if is_tag(window[2]) && is_digit(window[3]) {
        2
    } else if is_tag(window[3]) {
        1
    } else {
        0
    }
}

/// Whether `byte` is one of the two tags.
pub open spec fn is_tag(byte: u8) -> bool {
    byte == TAG_PRESS || byte == TAG_RELEASE
}

/// The decoder of the frames that come in from the follower: the last four
/// bytes received, and the shift that takes the follower's coordinates to
/// their place on the whole keyboard.
pub struct DeBuffer {
    buf: [u8; 4],
    shift: (u8, u8),
}

impl DeBuffer {
    #[verifier::type_invariant]
    spec fn shift_in_range(&self) -> bool {
        self.shift.0 <= MAX_SHIFT && self.shift.1 <= MAX_SHIFT
    }

    /// The last four bytes received, oldest first.
    pub closed spec fn window(&self) -> Seq<u8> {
        self.buf@
    }

    /// The shift added to the two coordinates of every event.
    pub closed spec fn shift(&self) -> (u8, u8) {
        self.shift
    }

    /// A decoder that has received nothing yet.
    pub fn new(shift: (u8, u8)) -> (d: Self)
        requires
            shift.0 <= MAX_SHIFT,
            shift.1 <= MAX_SHIFT,
        ensures
            d.window() == seq![0u8, 0u8, 0u8, 0u8],
            d.shift() == shift,
    {
        DeBuffer { buf: [0, 0, 0, 0], shift }
    }

    /// Takes one byte. When it completes a frame, the event of the frame is
    /// given, shifted. Else nothing is given, and the bytes still wait in the
    /// window for what comes next.
    pub fn feed(&mut self, byte: u8) -> (r: Option<Event>)
        ensures
            final(self).window() == slid(old(self).window(), byte),
            final(self).shift() == old(self).shift(),
            r == decoded(final(self).window(), old(self).shift()),
    {
        proof {
            use_type_invariant(&*self);
        }
        self.buf = [self.buf[1], self.buf[2], self.buf[3], byte];
        assert(self.buf@ =~= slid(old(self).buf@, byte));
        if self.buf[3] == TERMINATOR {
            if let Ok(event) = de(self.buf.as_slice(), self.shift) {
                return Some(event);
            }
        }
        None
    }
}

impl Default for DeBuffer {
    /// A decoder that has received nothing yet and shifts nothing.
    fn default() -> (d: Self)
        ensures
            d.window() == seq![0u8, 0u8, 0u8, 0u8],
            d.shift() == (0u8, 0u8),
    {
        DeBuffer::new((0, 0))
    }
}

/// A frame read with a shift gives the event back, shifted: the same kind
/// of change, and each coordinate larger by its shift, so that taking the
/// shift off again gives the event that was written.
pub proof fn lemma_round_trip(e: Event, shift: (u8, u8))
    requires
        crate::fits_frame(e),
        shift.0 <= MAX_SHIFT,
        shift.1 <= MAX_SHIFT,
    ensures
        frame_fits(crate::frame_of(e), shift),
        decoded(crate::frame_of(e), shift) == Some(shifted(e, shift)),
        shifted(e, shift) is Press <==> e is Press,
        shifted(e, shift).coord().0 - shift.0 == e.coord().0,
        shifted(e, shift).coord().1 - shift.1 == e.coord().1,
        shift == (0u8, 0u8) ==> decoded(crate::frame_of(e), shift) == Some(e),
{
}

/// Whatever a decoder has received before, the four bytes of a frame make
/// it give the event of the frame, shifted, at the last byte, and nothing at
/// the three bytes before.
pub proof fn lemma_frame_is_read_in_any_state(window: Seq<u8>, shift: (u8, u8), e: Event)
    requires
        window.len() == 4,
        crate::fits_frame(e),
    ensures
        stream_events(window, shift, crate::frame_of(e)) == seq![shifted(e, shift)],
        stream_events(window, shift, crate::frame_of(e).take(3)) == Seq::<Event>::empty(),
{
    let frame = crate::frame_of(e);
    let one = frame.take(1);
    let two = frame.take(2);
    let three = frame.take(3);
    assert(one.drop_last() == frame.take(0));
    assert(two.drop_last() == one);
    assert(three.drop_last() == two);
    assert(frame.drop_last() == three);
    assert(frame.take(0).len() == 0);
    assert(window_after(window, frame.take(0)) == window);
    assert(window_after(window, one) == slid(window, frame[0]));
    assert(window_after(window, two) == slid(window_after(window, one), frame[1]));
    assert(window_after(window, three) == slid(window_after(window, two), frame[2]));
    assert(window_after(window, frame) == slid(window_after(window, three), frame[3]));
    assert(window_after(window, frame) =~= frame);
    assert(stream_events(window, shift, frame.take(0)) == Seq::<Event>::empty());
    assert(stream_events(window, shift, one) == Seq::<Event>::empty());
    assert(stream_events(window, shift, two) == Seq::<Event>::empty());
    assert(stream_events(window, shift, three) == Seq::<Event>::empty());
    assert(Seq::<Event>::empty().push(shifted(e, shift)) =~= seq![shifted(e, shift)]);
}

/// One byte can add at most one to how much of a frame has begun, and a
/// byte that completes a frame finds three bytes of it begun and leaves none.
proof fn lemma_slide(window: Seq<u8>, shift: (u8, u8), byte: u8)
    requires
        window.len() == 4,
    ensures
        slid(window, byte).len() == 4,
        frame_begun(slid(window, byte)) <= frame_begun(window) + 1,
        decoded(slid(window, byte), shift) is Some ==> frame_begun(window) == 3 && frame_begun(
            slid(window, byte),
        ) == 0,
{
}

/// However many bytes come in, four times the number of events given, and
/// what of a frame has begun at the end, is no more than the number of bytes
/// and what of a frame had begun at the start.
pub proof fn lemma_stream_rate(window: Seq<u8>, shift: (u8, u8), bytes: Seq<u8>)
    requires
        window.len() == 4,
    ensures
        window_after(window, bytes).len() == 4,
        4 * stream_events(window, shift, bytes).len() + frame_begun(window_after(window, bytes))
            <= bytes.len() + frame_begun(window),
    decreases bytes.len(),
{
    if bytes.len() > 0 {
        lemma_stream_rate(window, shift, bytes.drop_last());
        lemma_slide(window_after(window, bytes.drop_last()), shift, bytes.last());
    }
}

/// A decoder that starts with nothing received never gives more than one
/// event for every four bytes.
pub proof fn lemma_one_event_per_four_bytes(shift: (u8, u8), bytes: Seq<u8>)
    ensures
        4 * stream_events(seq![0u8, 0u8, 0u8, 0u8], shift, bytes).len() <= bytes.len(),
{
    lemma_stream_rate(seq![0u8, 0u8, 0u8, 0u8], shift, bytes);
}

} // verus!
