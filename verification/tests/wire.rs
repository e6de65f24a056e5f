use siberon::active::{de as de_shifted, de_digit as de_digit_shifted, DeBuffer};
use siberon::{de, de_digit, ser, Event};

fn feed_all(buffer: &mut DeBuffer, bytes: &[u8]) -> Vec<Option<Event>> {
    bytes.iter().map(|b| buffer.feed(*b)).collect()
}

#[test]
fn ser_writes_tag_digits_and_line_feed() {
    assert_eq!(ser(Event::Press(3, 2)), *b"P32\n");
    assert_eq!(ser(Event::Release(1, 0)), *b"R10\n");
    assert_eq!(ser(Event::Press(0, 0)), [0x50, 0x30, 0x30, 0x0a]);
    assert_eq!(ser(Event::Release(9, 9)), [0x52, 0x39, 0x39, 0x0a]);
}

#[test]
fn de_digit_reads_digits_only() {
    assert_eq!(de_digit(b'0'), Ok(0));
    assert_eq!(de_digit(b'7'), Ok(7));
    assert_eq!(de_digit(b'9'), Ok(9));
    assert_eq!(de_digit(b'/'), Err(()));
    assert_eq!(de_digit(b':'), Err(()));
    assert_eq!(de_digit(b'P'), Err(()));
    assert_eq!(de_digit(0), Err(()));
    assert_eq!(de_digit(255), Err(()));
}

#[test]
fn de_digit_adds_the_shift() {
    assert_eq!(de_digit_shifted(b'3', 6), Ok(9));
    assert_eq!(de_digit_shifted(b'0', 0), Ok(0));
    assert_eq!(de_digit_shifted(b'9', 246), Ok(255));
    assert_eq!(de_digit_shifted(b'x', 6), Err(()));
    assert_eq!(de_digit_shifted(b'\n', 250), Err(()));
}

#[test]
fn de_reads_a_frame() {
    assert_eq!(de(b"P32\n"), Ok(Event::Press(3, 2)));
    assert_eq!(de(b"R10\n"), Ok(Event::Release(1, 0)));
}

#[test]
fn de_refuses_what_is_no_frame() {
    assert_eq!(de(b"X32\n"), Err(()));
    assert_eq!(de(b"p32\n"), Err(()));
    assert_eq!(de(b"Pa2\n"), Err(()));
    assert_eq!(de(b"P3b\n"), Err(()));
    assert_eq!(de(b"P32\r"), Err(()));
    assert_eq!(de(b"P32"), Err(()));
    assert_eq!(de(b"P32\n\n"), Err(()));
    assert_eq!(de(b"P3\n2"), Err(()));
    assert_eq!(de(b""), Err(()));
}

#[test]
fn de_with_shift_moves_both_coordinates() {
    assert_eq!(de_shifted(b"P32\n", (6, 0)), Ok(Event::Press(9, 2)));
    assert_eq!(de_shifted(b"R32\n", (0, 6)), Ok(Event::Release(3, 8)));
    assert_eq!(de_shifted(b"P99\n", (246, 246)), Ok(Event::Press(255, 255)));
    assert_eq!(de_shifted(b"X32\n", (6, 0)), Err(()));
    assert_eq!(de_shifted(b"P3x\n", (6, 0)), Err(()));
    assert_eq!(de_shifted(b"P32", (6, 0)), Err(()));
}

#[test]
fn round_trip_of_every_frame() {
    for i in 0..=9u8 {
        for j in 0..=9u8 {
            for e in [Event::Press(i, j), Event::Release(i, j)] {
                assert_eq!(de(&ser(e)), Ok(e));
                assert_eq!(de_shifted(&ser(e), (0, 0)), Ok(e));
                let shifted = de_shifted(&ser(e), (6, 1)).unwrap();
                let back = match shifted {
                    Event::Press(a, b) => Event::Press(a - 6, b - 1),
                    Event::Release(a, b) => Event::Release(a - 6, b - 1),
                };
                assert_eq!(back, e);
            }
        }
    }
}

#[test]
fn every_frame_that_reads_was_written_so() {
    for tag in [b'P', b'R'] {
        for a in b'0'..=b'9' {
            for b in b'0'..=b'9' {
                let frame = [tag, a, b, b'\n'];
                assert_eq!(ser(de(&frame).unwrap()), frame);
            }
        }
    }
}

#[test]
fn shift_of_a_follower_frame() {
    let mut buffer = DeBuffer::new((6, 0));
    assert_eq!(
        feed_all(&mut buffer, b"P32\n"),
        vec![None, None, None, Some(Event::Press(9, 2))]
    );
}

#[test]
fn fresh_buffer_reads_one_frame() {
    let mut buffer = DeBuffer::new((0, 0));
    assert_eq!(buffer.feed(b'P'), None);
    assert_eq!(buffer.feed(b'3'), None);
    assert_eq!(buffer.feed(b'2'), None);
    assert_eq!(buffer.feed(b'\n'), Some(Event::Press(3, 2)));
}

#[test]
fn unknown_tag_is_dropped_and_the_next_frame_is_read() {
    let mut buffer = DeBuffer::new((0, 0));
    assert_eq!(feed_all(&mut buffer, b"X32\n"), vec![None, None, None, None]);
    assert_eq!(
        feed_all(&mut buffer, b"R10\n"),
        vec![None, None, None, Some(Event::Release(1, 0))]
    );
}

#[test]
fn default_buffer_shifts_nothing() {
    let mut buffer = DeBuffer::default();
    assert_eq!(
        feed_all(&mut buffer, b"R45\n"),
        vec![None, None, None, Some(Event::Release(4, 5))]
    );
}

#[test]
fn buffer_finds_a_frame_after_noise() {
    let mut buffer = DeBuffer::new((0, 6));
    let seen = feed_all(&mut buffer, b"\n\nP3P12\nR\nR05\n");
    let events: Vec<Event> = seen.into_iter().flatten().collect();
    assert_eq!(events, vec![Event::Press(1, 8), Event::Release(0, 11)]);
}

#[test]
fn line_feed_in_the_wrong_place_gives_nothing() {
    let mut buffer = DeBuffer::new((0, 0));
    assert_eq!(feed_all(&mut buffer, b"P3\n2\n"), vec![None; 5]);
    assert_eq!(feed_all(&mut buffer, b"P32"), vec![None; 3]);
    assert_eq!(buffer.feed(b'\n'), Some(Event::Press(3, 2)));
    assert_eq!(buffer.feed(b'\n'), None);
}

#[test]
fn frames_back_to_back_are_all_read() {
    let mut buffer = DeBuffer::new((0, 0));
    let seen = feed_all(&mut buffer, b"P00\nR00\nP59\n");
    let events: Vec<Event> = seen.into_iter().flatten().collect();
    assert_eq!(
        events,
        vec![Event::Press(0, 0), Event::Release(0, 0), Event::Press(5, 9)]
    );
}

#[test]
fn noise_gives_at_most_one_event_for_four_bytes() {
    let mut state: u32 = 0x2545_f491;
    for round in 0..200usize {
        let mut buffer = DeBuffer::new((6, 0));
        let mut events = 0usize;
        let length = 1 + round % 97;
        for fed in 1..=length {
            state = state.wrapping_mul(1_664_525).wrapping_add(1_013_904_223);
            let pick = (state >> 24) as u8;
            let byte = match pick % 8 {
                0 => b'P',
                1 => b'R',
                2 | 3 => b'0' + pick % 10,
                4 | 5 => b'\n',
                _ => pick,
            };
            if buffer.feed(byte).is_some() {
                events += 1;
            }
            assert!(4 * events <= fed);
        }
    }
}
