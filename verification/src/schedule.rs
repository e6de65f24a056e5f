//! The tasks of the leader and what passes between them: which task runs
//! next, the two queues of bounded length, and what each task does to the
//! state of the keyboard. Reading the serial line, scanning the matrix and
//! talking to the host stay with the caller.

use std::collections::VecDeque;
use vstd::prelude::*;
use crate::active::{decoded, slid, CustomEvent, DeBuffer, Poll, SiberonActive};
use crate::debounce::{grid, Frame};
use crate::engine::{engine_event, engine_events, engine_report, engine_tick};
use crate::Event;

verus! {

/// How many items wait at most in each queue.
pub const QUEUE_CAPACITY: usize = 8;

/// The five tasks of the leader.
#[derive(Clone, Copy, Debug, PartialEq, Eq, Structural)]
pub enum Activity {
    /// A byte has come in on the serial line.
    UartReceive,
    /// The USB peripheral asks for service.
    UsbPoll,
    /// A key change from the follower waits to reach the engine.
    HandleEvent,
    /// A report waits to go to the host.
    UsbSend,
    /// The timer has run out: time to scan the matrix.
    Tick,
}

impl Activity {
    /// The priority of the task. A task goes before every task of lower
    /// priority.
    pub open spec fn rank(self) -> u8 {
        match self {
            Activity::UartReceive => 5,
            Activity::UsbPoll => 4,
            Activity::HandleEvent => 3,
            Activity::UsbSend => 2,
            Activity::Tick => 1,
        }
    }

    /// The priority of the task.
    pub fn priority(self) -> (p: u8)
        ensures
            p == self.rank(),
    {
        match self {
            Activity::UartReceive => 5,
            Activity::UsbPoll => 4,
            Activity::HandleEvent => 3,
            Activity::UsbSend => 2,
            Activity::Tick => 1,
        }
    }
}

/// What the task that talks to the host has just learnt.
#[derive(Clone, Copy, Debug, PartialEq, Eq)]
pub enum SendEvent {
    /// A report has left the queue.
    Start,
    /// Whether the host has configured the device.
    State { configured: bool },
    /// Whether the report differs from the one the device held.
    ReportSet { changed: bool },
    /// How many bytes the endpoint took, if the write went through.
    Written { accepted: Option<usize> },
}

/// What the task that talks to the host does next.
#[derive(Clone, Copy, Debug, PartialEq, Eq, Structural)]
pub enum SendStep {
    /// Ask the device for its state.
    AskState,
    /// Hand the report to the device.
    SetReport,
    /// Write the report to the endpoint.
    Write,
    /// Nothing more: the report is sent or given up.
    Done,
}

/// The next step of sending one report. A device that is not configured gets
/// nothing, a report that changes nothing is not written, and a write that
/// the endpoint took nothing of is tried again.
pub fn usb_send_step(event: SendEvent) -> (next: SendStep)
    ensures
        next == match event {
            SendEvent::Start => SendStep::AskState,
            SendEvent::State { configured } => if configured {
                SendStep::SetReport
            } else {
                SendStep::Done
            },
            SendEvent::ReportSet { changed } => if changed {
                SendStep::Write
            } else {
                SendStep::Done
            },
            SendEvent::Written { accepted } => if accepted == Some(0usize) {
                SendStep::Write
            } else {
                SendStep::Done
            },
        },
{
    match event {
        SendEvent::Start => SendStep::AskState,
        SendEvent::State { configured } => if configured {
            SendStep::SetReport
        } else {
            SendStep::Done
        },
        SendEvent::ReportSet { changed } => if changed {
            SendStep::Write
        } else {
            SendStep::Done
        },
        SendEvent::Written { accepted } => match accepted {
            Some(count) => if count == 0 {
                SendStep::Write
            } else {
                SendStep::Done
            },
            None => SendStep::Done,
        },
    }
}

/// The state that the tasks of the leader share, and the two queues.
pub struct Scheduler {
    buffer: DeBuffer,
    siberon: SiberonActive,
    events: VecDeque<Event>,
    reports: VecDeque<Poll>,
}

impl Scheduler {
    /// The decoder of the serial line.
    pub closed spec fn buffer(&self) -> DeBuffer {
        self.buffer
    }

    /// The keyboard: debouncer and layer engine.
    pub closed spec fn siberon(&self) -> SiberonActive {
        self.siberon
    }

    /// The key changes that wait for the engine, oldest first.
    pub closed spec fn events(&self) -> Seq<Event> {
        self.events@
    }

    /// The reports that wait for the host, oldest first.
    pub closed spec fn reports(&self) -> Seq<Poll> {
        self.reports@
    }

    /// Whether `activity` has work to do: for the three tasks that the
    /// hardware sets going, whether it has done so; for the other two,
    /// whether something waits in their queue.
    pub open spec fn ready(&self, activity: Activity, uart: bool, usb: bool, timer: bool) -> bool {
        match activity {
            Activity::UartReceive => uart,
            Activity::UsbPoll => usb,
            Activity::HandleEvent => self.events().len() > 0,
            Activity::UsbSend => self.reports().len() > 0,
            Activity::Tick => timer,
        }
    }

    /// Whether neither queue holds more than `QUEUE_CAPACITY` items. It is so
    /// from the start, and every task keeps it so.
    pub open spec fn within_capacity(&self) -> bool {
        self.events().len() <= QUEUE_CAPACITY && self.reports().len() <= QUEUE_CAPACITY
    }

    /// A scheduler around a keyboard and a decoder, with nothing waiting.
    pub fn new(siberon: SiberonActive, buffer: DeBuffer) -> (s: Self)
        ensures
            s.siberon() == siberon,
            s.buffer() == buffer,
            s.events() == Seq::<Event>::empty(),
            s.reports() == Seq::<Poll>::empty(),
            s.within_capacity(),
    {
        Scheduler { buffer, siberon, events: VecDeque::new(), reports: VecDeque::new() }
    }

    /// The task to run now: of those that have work to do, the one of the
    /// highest priority. `uart`, `usb` and `timer` say whether the hardware has
    /// set the task of that name going.
    pub fn next(&self, uart: bool, usb: bool, timer: bool) -> (activity: Option<Activity>)
        ensures
            match activity {
                Some(a) => self.ready(a, uart, usb, timer) && forall|b: Activity|
                    self.ready(b, uart, usb, timer) ==> b.rank() <= a.rank(),
                None => forall|b: Activity| !self.ready(b, uart, usb, timer),
            },
    {
        if uart {
            Some(Activity::UartReceive)
        } else if usb {
            Some(Activity::UsbPoll)
        } else if self.events.len() > 0 {
            Some(Activity::HandleEvent)
        } else if self.reports.len() > 0 {
            Some(Activity::UsbSend)
        } else if timer {
            Some(Activity::Tick)
        } else {
            None
        }
    }

    /// The task of the serial line: `byte` goes to the decoder, and an event
    /// that it completes joins the queue for the engine. When the queue is
    /// full the event is handed back instead and is lost to the engine.
    pub fn uart_receive(&mut self, byte: u8) -> (r: Result<(), Event>)
        ensures
            final(self).buffer().window() == slid(old(self).buffer().window(), byte),
            final(self).buffer().shift() == old(self).buffer().shift(),
            final(self).siberon() == old(self).siberon(),
            final(self).reports() == old(self).reports(),
            match decoded(final(self).buffer().window(), old(self).buffer().shift()) {
                Some(e) => if old(self).events().len() < QUEUE_CAPACITY {
                    final(self).events() == old(self).events().push(e) && r is Ok
                } else {
                    final(self).events() == old(self).events() && r == Err::<(), Event>(e)
                },
                None => final(self).events() == old(self).events() && r is Ok,
            },
            old(self).within_capacity() ==> final(self).within_capacity(),
    {
        match self.buffer.feed(byte) {
            Some(event) => {
                if self.events.len() < QUEUE_CAPACITY {
                    self.events.push_back(event);
                    Ok(())
                } else {
                    Err(event)
                }
            },
            None => Ok(()),
        }
    }

    /// The task that feeds the engine: the oldest event that waits, if there
    /// is one, leaves the queue and goes to the engine.
    pub fn handle_event(&mut self)
        ensures
            final(self).buffer() == old(self).buffer(),
            final(self).reports() == old(self).reports(),
            final(self).siberon().debounce() == old(self).siberon().debounce(),
            old(self).events().len() == 0 ==> final(self).events() == old(self).events()
                && final(self).siberon().engine() == old(self).siberon().engine(),
            old(self).events().len() > 0 ==> final(self).events() == old(self).events().drop_first()
                && final(self).siberon().engine() == engine_event(
                old(self).siberon().engine(),
                old(self).events().first(),
            ),
            old(self).within_capacity() ==> final(self).within_capacity(),
    {
        match self.events.pop_front() {
            Some(event) => {
                self.siberon.handle_event(event);
            },
            None => {},
        }
    }

    /// The task of the timer: one polling cycle of the keyboard on the sample
    /// `frame`, whose result joins the queue for the host. When the queue is
    /// full the result is handed back instead and does not reach the host.
    pub fn tick(&mut self, frame: Frame) -> (r: Result<(), Poll>)
        ensures
            final(self).buffer() == old(self).buffer(),
            final(self).events() == old(self).events(),
            final(self).siberon().debounce() == old(self).siberon().debounce().step(grid(frame)),
            final(self).siberon().engine() == engine_tick(
                engine_events(
                    old(self).siberon().engine(),
                    old(self).siberon().debounce().emitted(grid(frame)),
                ),
            ),
            if old(self).reports().len() < QUEUE_CAPACITY {
                final(self).reports() == old(self).reports().push(
                    Self::polled(final(self).siberon()),
                ) && r is Ok
            } else {
                final(self).reports() == old(self).reports() && r == Err::<(), Poll>(
                    Self::polled(final(self).siberon()),
                )
            },
            old(self).within_capacity() ==> final(self).within_capacity(),
    {
        let poll = self.siberon.poll(frame);
        if self.reports.len() < QUEUE_CAPACITY {
            self.reports.push_back(poll);
            Ok(())
        } else {
            Err(poll)
        }
    }

    /// What a polling cycle hands on when it leaves the keyboard as `siberon`.
    pub open spec fn polled(siberon: SiberonActive) -> Poll {
        Poll { custom_event: CustomEvent::NoEvent, report: engine_report(siberon.engine()) }
    }

    /// The task that talks to the host: the oldest report that waits, if there
    /// is one, leaves the queue for the caller to send.
    pub fn usb_send(&mut self) -> (poll: Option<Poll>)
        ensures
            final(self).buffer() == old(self).buffer(),
            final(self).siberon() == old(self).siberon(),
            final(self).events() == old(self).events(),
            old(self).reports().len() == 0 ==> poll is None
                && final(self).reports() == old(self).reports(),
            old(self).reports().len() > 0 ==> poll == Some(old(self).reports().first())
                && final(self).reports() == old(self).reports().drop_first(),
            old(self).within_capacity() ==> final(self).within_capacity(),
    {
        self.reports.pop_front()
    }
}

} // verus!
