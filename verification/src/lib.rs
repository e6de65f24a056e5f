//! Input pipeline of a split keyboard: debounced key transitions, the serial
//! frames that carry them between the two halves, and the glue that feeds them
//! to the layer engine.

pub use keyberon;
use vstd::prelude::*;
use crate::debounce::{
    grid, in_half, lemma_emitted_is_the_confirmed_keys, DebounceState, Frame, KeyDebouncer,
};

pub mod active;
pub mod ceiling;
pub mod debounce;
pub mod engine;
pub mod layout;
pub mod schedule;

verus! {

/// Rows of the key matrix of one half, and of the whole keyboard.
pub const ROWS: usize = 6;

/// Columns of the key matrix of one half.
pub const HALF_COLS: usize = 6;

/// Columns of the whole keyboard.
pub const COLS: usize = 12;

/// First byte of the frame of a press, ASCII `P`.
pub const TAG_PRESS: u8 = 0x50;

/// First byte of the frame of a release, ASCII `R`.
pub const TAG_RELEASE: u8 = 0x52;

/// Last byte of every frame, ASCII line feed.
pub const TERMINATOR: u8 = 0x0a;

/// ASCII `0`, the digit that stands for coordinate 0.
pub const DIGIT_ZERO: u8 = 0x30;

/// ASCII `9`, the digit that stands for the largest coordinate a frame can carry.
pub const DIGIT_NINE: u8 = 0x39;

/// How many samples in a row have to agree before a change of the matrix counts.
pub const DEBOUNCE_SAMPLES: u16 = 5;

/// A confirmed change of one key, with its two matrix coordinates.
#[derive(Clone, Copy, Debug, PartialEq, Eq, Structural)]
pub enum Event {
    /// The key at `(i, j)` went down.
    Press(u8, u8),
    /// The key at `(i, j)` came up.
    Release(u8, u8),
}

impl Event {
    /// The two coordinates of the key.
    pub open spec fn coord(self) -> (u8, u8) {
        match self {
            Event::Press(i, j) => (i, j),
            Event::Release(i, j) => (i, j),
        }
    }
}

/// Whether `byte` is an ASCII decimal digit.
pub open spec fn is_digit(byte: u8) -> bool {
    DIGIT_ZERO <= byte <= DIGIT_NINE
}

/// The value of a decimal digit, when `byte` is one.
pub open spec fn digit_value(byte: u8) -> Option<u8> {
    if is_digit(byte) {
        Some((byte - DIGIT_ZERO) as u8)
    } else {
        None
    }
}

/// Whether a frame can carry `e`: each coordinate is a single decimal digit.
pub open spec fn fits_frame(e: Event) -> bool {
    match e {
        Event::Press(i, j) => i <= 9 && j <= 9,
        Event::Release(i, j) => i <= 9 && j <= 9,
    }
}

/// The four bytes that carry `e`: `P` or `R`, the digit of the first
/// coordinate, the digit of the second, and a line feed.
pub open spec fn frame_of(e: Event) -> Seq<u8> {
    match e {
        Event::Press(i, j) => seq![
            TAG_PRESS,
            (DIGIT_ZERO + i) as u8,
            (DIGIT_ZERO + j) as u8,
            TERMINATOR,
        ],
        Event::Release(i, j) => seq![
            TAG_RELEASE,
            (DIGIT_ZERO + i) as u8,
            (DIGIT_ZERO + j) as u8,
            TERMINATOR,
        ],
    }
}

/// The event that `bytes` carry, if they are a frame: exactly four bytes, a
/// known tag, two digits and the line feed.
pub open spec fn parsed(bytes: Seq<u8>) -> Option<Event> {
    if bytes.len() == 4 && bytes[3] == TERMINATOR && is_digit(bytes[1]) && is_digit(bytes[2]) {
        if bytes[0] == TAG_PRESS {
            Some(Event::Press((bytes[1] - DIGIT_ZERO) as u8, (bytes[2] - DIGIT_ZERO) as u8))
        } else if bytes[0] == TAG_RELEASE {
            Some(Event::Release((bytes[1] - DIGIT_ZERO) as u8, (bytes[2] - DIGIT_ZERO) as u8))
        } else {
            None
        }
    } else {
        None
    }
}

/// Writes `e` as a frame.
pub fn ser(e: Event) -> (frame: [u8; 4])
    requires
        fits_frame(e),
    ensures
        frame@ == frame_of(e),
{
    match e {
        Event::Press(i, j) => [TAG_PRESS, i + DIGIT_ZERO, j + DIGIT_ZERO, TERMINATOR],
        Event::Release(i, j) => [TAG_RELEASE, i + DIGIT_ZERO, j + DIGIT_ZERO, TERMINATOR],
    }
}

/// Reads a frame. Anything that is not one is an error.
pub fn de(bytes: &[u8]) -> (r: Result<Event, ()>)
    ensures
        r == match parsed(bytes@) {
            Some(e) => Ok::<Event, ()>(e),
            None => Err::<Event, ()>(()),
        },
{
    if bytes.len() != 4 || bytes[3] != TERMINATOR {
        return Err(());
    }
    if bytes[0] == TAG_PRESS {
        let i = de_digit(bytes[1])?;
        let j = de_digit(bytes[2])?;
        Ok(Event::Press(i, j))
    } else if bytes[0] == TAG_RELEASE {
        let i = de_digit(bytes[1])?;
        let j = de_digit(bytes[2])?;
        Ok(Event::Release(i, j))
    } else {
        Err(())
    }
}

/// Reads one ASCII decimal digit.
pub fn de_digit(byte: u8) -> (r: Result<u8, ()>)
    ensures
        r == match digit_value(byte) {
            Some(d) => Ok::<u8, ()>(d),
            None => Err::<u8, ()>(()),
        },
{
    if byte >= DIGIT_ZERO && byte <= DIGIT_NINE {
        Ok(byte - DIGIT_ZERO)
    } else {
        Err(())
    }
}

/// Reading the frame of an event gives the event back.
pub proof fn lemma_de_ser(e: Event)
    requires
        fits_frame(e),
    ensures
        parsed(frame_of(e)) == Some(e),
{
}

/// Every frame that reads as an event is the frame of that event, so no two
/// frames carry the same event.
pub proof fn lemma_ser_de(bytes: Seq<u8>)
    requires
        parsed(bytes) is Some,
    ensures
        fits_frame(parsed(bytes)->0),
        frame_of(parsed(bytes)->0) == bytes,
{
    assert(frame_of(parsed(bytes)->0) =~= bytes);
}

/// The follower half of the keyboard: a debouncer for every key of its
/// matrix.
pub struct SiberonPassive {
    keys: [[KeyDebouncer; HALF_COLS]; ROWS],
}

/// A row of keys that are up.
fn fresh_row() -> (row: [KeyDebouncer; HALF_COLS])
    ensures
        forall|j: int| 0 <= j < HALF_COLS ==> (#[trigger] row@[j])@ == crate::debounce::KeyState::fresh(),
{
    [
        KeyDebouncer::new(),
        KeyDebouncer::new(),
        KeyDebouncer::new(),
        KeyDebouncer::new(),
        KeyDebouncer::new(),
        KeyDebouncer::new(),
    ]
}

impl SiberonPassive {
    /// What the debouncers hold, key by key.
    pub closed spec fn view(&self) -> DebounceState {
        DebounceState {
            keys: Seq::new(
                ROWS as nat,
                |i: int| Seq::new(HALF_COLS as nat, |j: int| self.keys@[i]@[j]@),
            ),
        }
    }

    /// What the debouncers of a new half hold: no key down, nothing counted.
    pub open spec fn init_state() -> DebounceState {
        DebounceState::fresh()
    }

    /// A half on which no key is down.
    pub fn init() -> (s: Self)
        ensures
            s@ == Self::init_state(),
    {
        let s = SiberonPassive {
            keys: [
                fresh_row(),
                fresh_row(),
                fresh_row(),
                fresh_row(),
                fresh_row(),
                fresh_row(),
            ],
        };
        assert(s@.keys =~~= Self::init_state().keys);
        s
    }

    /// Takes one sample of the matrix. Every key takes its own value in it,
    /// and the changes that this confirms are given, row by row.
    pub fn events(&mut self, frame: Frame) -> (events: Vec<Event>)
        ensures
            final(self)@ == old(self)@.step(grid(frame)),
            events@ == old(self)@.emitted(grid(frame)),
            forall|k: int| 0 <= k < events@.len() ==> in_half(#[trigger] events@[k]),
    {
        let ghost before = self@;
        let ghost sample = grid(frame);
        let mut events: Vec<Event> = Vec::new();
        let mut i: usize = 0;
        while i < ROWS
            invariant
                0 <= i <= ROWS,
                before == old(self)@,
                sample == grid(frame),
                events@ == before.emitted_upto(sample, (i * HALF_COLS) as nat),
                forall|a: int, b: int|
                    0 <= a < ROWS && 0 <= b < HALF_COLS ==> #[trigger] self.keys@[a]@[b]@ == (if a
                        < i {
                        before.keys[a][b].step(sample[a][b])
                    } else {
                        before.keys[a][b]
                    }),
            decreases ROWS - i,
        {
            let mut j: usize = 0;
            while j < HALF_COLS
                invariant
                    0 <= i < ROWS,
                    0 <= j <= HALF_COLS,
                    before == old(self)@,
                    sample == grid(frame),
                    events@ == before.emitted_upto(sample, (i * HALF_COLS + j) as nat),
                    forall|a: int, b: int|
                        0 <= a < ROWS && 0 <= b < HALF_COLS ==> #[trigger] self.keys@[a]@[b]@
                            == (if a < i || (a == i && b < j) {
                            before.keys[a][b].step(sample[a][b])
                        } else {
                            before.keys[a][b]
                        }),
                decreases HALF_COLS - j,
            {
                let down = frame[i][j];
                let ghost key = self.keys@[i as int]@[j as int]@;
                assert(key == before.keys[i as int][j as int]);
                assert(down == sample[i as int][j as int]);
                let changed = self.keys[i][j].update(down);
                proof {
                    let k = (i * HALF_COLS + j) as int;
                    assert(k / (HALF_COLS as int) == i && k % (HALF_COLS as int) == j);
                }
                if changed {
                    if down {
                        events.push(Event::Press(i as u8, j as u8));
                    } else {
                        events.push(Event::Release(i as u8, j as u8));
                    }
                }
                j += 1;
            }
            i += 1;
        }
        proof {
            assert(self@.keys =~~= before.step(sample).keys);
            lemma_emitted_is_the_confirmed_keys(before, sample);
        }
        events
    }

    /// Takes one sample of the matrix and gives the frames of the key changes
    /// that it confirms, in the same order.
    pub fn events_serilized(&mut self, frame: Frame) -> (frames: Vec<[u8; 4]>)
        ensures
            final(self)@ == old(self)@.step(grid(frame)),
            frames@.len() == old(self)@.emitted(grid(frame)).len(),
            forall|k: int|
                0 <= k < frames@.len() ==> (#[trigger] frames@[k])@ == frame_of(
                    old(self)@.emitted(grid(frame))[k],
                ),
    {
        let events = self.events(frame);
        let mut frames: Vec<[u8; 4]> = Vec::new();
        let mut k: usize = 0;
        while k < events.len()
            invariant
                0 <= k <= events@.len(),
                frames@.len() == k,
                forall|q: int| 0 <= q < events@.len() ==> in_half(#[trigger] events@[q]),
                forall|q: int| 0 <= q < k ==> (#[trigger] frames@[q])@ == frame_of(events@[q]),
            decreases events@.len() - k,
        {
            assert(in_half(events@[k as int]));
            frames.push(ser(events[k]));
            k += 1;
        }
        frames
    }
}

} // verus!
