use keyberon::key_code::{KbHidReport, KeyCode};
use siberon::active::{CustomEvent, DeBuffer, SiberonActive};
use siberon::layout::{k, Action, LayerCombiner};
use siberon::schedule::{usb_send_step, Activity, Scheduler, SendEvent, SendStep, QUEUE_CAPACITY};
use siberon::{Event, COLS, HALF_COLS, ROWS};

const UP: [[bool; HALF_COLS]; ROWS] = [[false; HALF_COLS]; ROWS];

fn layers_of_the_test() -> [siberon::layout::Layer; 1] {
    let block = [
        [k(KeyCode::A), k(KeyCode::B), k(KeyCode::C)],
        [k(KeyCode::D), k(KeyCode::E), k(KeyCode::F)],
    ];
    let layer = LayerCombiner::new();
    assert!(layer.can_combine(&block, 0, 0));
    let layer = layer.combine(block, 0, 0);
    let right = [[k(KeyCode::Kb1), k(KeyCode::Kb2)]];
    assert!(layer.can_combine(&right, 6, 0));
    let layer = layer.combine(right, 6, 0).into_layer();
    assert_eq!(layer[1][3], Action::Trans);
    assert_eq!(layer[0][COLS - 5], k(KeyCode::Kb2));
    [layer]
}

fn scheduler() -> Scheduler {
    Scheduler::new(SiberonActive::init(&layers_of_the_test()), DeBuffer::new((0, 6)))
}

fn report_of(keys: &[KeyCode]) -> KbHidReport {
    keys.iter().cloned().collect()
}

fn receive(s: &mut Scheduler, bytes: &[u8]) -> Vec<Result<(), Event>> {
    bytes.iter().map(|b| s.uart_receive(*b)).collect()
}

#[test]
fn priorities_are_five_down_to_one() {
    assert_eq!(Activity::UartReceive.priority(), 5);
    assert_eq!(Activity::UsbPoll.priority(), 4);
    assert_eq!(Activity::HandleEvent.priority(), 3);
    assert_eq!(Activity::UsbSend.priority(), 2);
    assert_eq!(Activity::Tick.priority(), 1);
    assert_eq!(QUEUE_CAPACITY, 8);
}

#[test]
fn nothing_to_do_at_the_start() {
    let s = scheduler();
    assert_eq!(s.next(false, false, false), None);
}

#[test]
fn hardware_tasks_go_by_priority() {
    let s = scheduler();
    assert_eq!(s.next(true, true, true), Some(Activity::UartReceive));
    assert_eq!(s.next(true, false, true), Some(Activity::UartReceive));
    assert_eq!(s.next(false, true, true), Some(Activity::UsbPoll));
    assert_eq!(s.next(false, true, false), Some(Activity::UsbPoll));
    assert_eq!(s.next(false, false, true), Some(Activity::Tick));
}

#[test]
fn queued_work_goes_before_the_timer_and_after_the_interrupts() {
    let mut s = scheduler();
    assert_eq!(s.tick(UP).map_err(|_| ()), Ok(()));
    assert_eq!(s.next(false, false, true), Some(Activity::UsbSend));
    assert_eq!(receive(&mut s, b"P00\n"), vec![Ok(()); 4]);
    assert_eq!(s.next(false, false, true), Some(Activity::HandleEvent));
    assert_eq!(s.next(false, true, true), Some(Activity::UsbPoll));
    assert_eq!(s.next(true, false, false), Some(Activity::UartReceive));
    s.handle_event();
    assert_eq!(s.next(false, false, true), Some(Activity::UsbSend));
    assert!(s.usb_send().is_some());
    assert_eq!(s.next(false, false, true), Some(Activity::Tick));
    assert_eq!(s.next(false, false, false), None);
}

#[test]
fn bytes_that_complete_no_frame_queue_nothing() {
    let mut s = scheduler();
    assert_eq!(receive(&mut s, b"P0\nxx\nR1"), vec![Ok(()); 8]);
    assert_eq!(s.next(false, false, false), None);
}

#[test]
fn events_reach_the_engine_in_the_order_they_came() {
    let mut s = scheduler();
    assert_eq!(receive(&mut s, b"P00\nP01\nR00\n"), vec![Ok(()); 12]);
    s.handle_event();
    assert_eq!(s.tick(UP).map_err(|_| ()), Ok(()));
    s.handle_event();
    assert_eq!(s.tick(UP).map_err(|_| ()), Ok(()));
    s.handle_event();
    assert_eq!(s.tick(UP).map_err(|_| ()), Ok(()));
    assert_eq!(s.next(false, false, false), Some(Activity::UsbSend));
    assert_eq!(s.usb_send().unwrap().report, report_of(&[KeyCode::Kb1]));
    assert_eq!(s.usb_send().unwrap().report, report_of(&[KeyCode::Kb1, KeyCode::Kb2]));
    let last = s.usb_send().unwrap();
    assert_eq!(last.report, report_of(&[KeyCode::Kb2]));
    assert_eq!(last.custom_event, CustomEvent::NoEvent);
    assert!(s.usb_send().is_none());
}

#[test]
fn ninth_event_is_handed_back() {
    let mut s = scheduler();
    for _ in 0..4 {
        assert_eq!(receive(&mut s, b"P00\nR00\n"), vec![Ok(()); 8]);
    }
    assert_eq!(
        receive(&mut s, b"P01\n"),
        vec![Ok(()), Ok(()), Ok(()), Err(Event::Press(0, 7))]
    );
    s.handle_event();
    assert_eq!(receive(&mut s, b"P01\n"), vec![Ok(()); 4]);
    assert_eq!(
        receive(&mut s, b"R01\n"),
        vec![Ok(()), Ok(()), Ok(()), Err(Event::Release(0, 7))]
    );
    for _ in 0..QUEUE_CAPACITY {
        assert_eq!(s.next(false, false, false), Some(Activity::HandleEvent));
        s.handle_event();
    }
    assert_eq!(s.next(false, false, false), None);
    for round in 0..8 {
        assert_eq!(s.tick(UP).map_err(|_| ()), Ok(()));
        let expected = if round % 2 == 0 { report_of(&[KeyCode::Kb1]) } else { KbHidReport::default() };
        assert_eq!(s.usb_send().unwrap().report, expected);
    }
    assert_eq!(s.tick(UP).map_err(|_| ()), Ok(()));
    assert_eq!(s.usb_send().unwrap().report, report_of(&[KeyCode::Kb2]));
    assert_eq!(s.tick(UP).map_err(|_| ()), Ok(()));
    assert_eq!(s.usb_send().unwrap().report, report_of(&[KeyCode::Kb2]));
}

#[test]
fn ninth_report_is_handed_back() {
    let mut s = scheduler();
    for _ in 0..QUEUE_CAPACITY {
        assert_eq!(s.tick(UP).map_err(|_| ()), Ok(()));
    }
    assert_eq!(receive(&mut s, b"P01\n"), vec![Ok(()); 4]);
    s.handle_event();
    let back = s.tick(UP).unwrap_err();
    assert_eq!(back.report, report_of(&[KeyCode::Kb2]));
    assert_eq!(back.custom_event, CustomEvent::NoEvent);
    for _ in 0..QUEUE_CAPACITY {
        assert_eq!(s.usb_send().unwrap().report, KbHidReport::default());
    }
    assert!(s.usb_send().is_none());
    assert_eq!(s.tick(UP).map_err(|_| ()), Ok(()));
    assert_eq!(s.usb_send().unwrap().report, report_of(&[KeyCode::Kb2]));
}

#[test]
fn handle_event_with_nothing_queued_changes_nothing() {
    let mut s = scheduler();
    s.handle_event();
    assert_eq!(s.next(false, false, false), None);
    assert_eq!(s.tick(UP).map_err(|_| ()), Ok(()));
    assert_eq!(s.usb_send().unwrap().report, KbHidReport::default());
}

#[test]
fn tick_debounces_the_own_matrix() {
    let mut s = scheduler();
    let mut pressed = UP;
    pressed[1][2] = true;
    for _ in 0..4 {
        assert_eq!(s.tick(pressed).map_err(|_| ()), Ok(()));
        assert_eq!(s.usb_send().unwrap().report, KbHidReport::default());
    }
    assert_eq!(s.tick(pressed).map_err(|_| ()), Ok(()));
    assert_eq!(s.usb_send().unwrap().report, report_of(&[KeyCode::F]));
}

#[test]
fn sending_asks_for_the_state_first() {
    assert_eq!(usb_send_step(SendEvent::Start), SendStep::AskState);
}

#[test]
fn device_that_is_not_configured_gets_nothing() {
    assert_eq!(usb_send_step(SendEvent::State { configured: false }), SendStep::Done);
    assert_eq!(usb_send_step(SendEvent::State { configured: true }), SendStep::SetReport);
}

#[test]
fn report_that_changes_nothing_is_not_written() {
    assert_eq!(usb_send_step(SendEvent::ReportSet { changed: false }), SendStep::Done);
    assert_eq!(usb_send_step(SendEvent::ReportSet { changed: true }), SendStep::Write);
}

#[test]
fn write_is_tried_again_while_nothing_is_taken() {
    assert_eq!(usb_send_step(SendEvent::Written { accepted: Some(0) }), SendStep::Write);
    assert_eq!(usb_send_step(SendEvent::Written { accepted: Some(8) }), SendStep::Done);
    assert_eq!(usb_send_step(SendEvent::Written { accepted: Some(1) }), SendStep::Done);
    assert_eq!(usb_send_step(SendEvent::Written { accepted: None }), SendStep::Done);
}

#[test]
fn tasks_leave_the_keyboard_as_if_run_one_after_the_other() {
    let mut pressed = UP;
    pressed[0][1] = true;
    let mut shared = scheduler();
    let mut seen = Vec::new();
    for round in 0..12 {
        // A frame of the follower comes in while the timer is due.
        let bytes: &[u8] = if round % 2 == 0 { b"P00\n" } else { b"R00\n" };
        for byte in bytes {
            while let Some(activity) = shared.next(false, false, false) {
                match activity {
                    Activity::HandleEvent => shared.handle_event(),
                    Activity::UsbSend => seen.push(shared.usb_send().unwrap().report),
                    _ => unreachable!(),
                }
            }
            assert_eq!(shared.uart_receive(*byte), Ok(()));
        }
        assert_eq!(shared.next(false, false, true), Some(Activity::HandleEvent));
        shared.handle_event();
        assert_eq!(shared.next(false, false, true), Some(Activity::Tick));
        assert!(shared.tick(pressed).is_ok());
        seen.push(shared.usb_send().unwrap().report);
    }
    let mut alone = SiberonActive::init(&layers_of_the_test());
    let mut expected = Vec::new();
    for round in 0..12 {
        alone.handle_event(if round % 2 == 0 { Event::Press(0, 6) } else { Event::Release(0, 6) });
        expected.push(alone.poll(pressed).report);
    }
    assert_eq!(seen, expected);
    assert_eq!(expected[0], report_of(&[KeyCode::Kb1]));
    assert_eq!(expected[1], KbHidReport::default());
    assert_eq!(expected[4], report_of(&[KeyCode::Kb1]));
    assert_eq!(expected[5], report_of(&[KeyCode::Kb1, KeyCode::B]));
    assert_eq!(expected[6], report_of(&[KeyCode::B]));
}
