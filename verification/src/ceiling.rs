//! The lock on the keyboard. Two tasks change the keyboard: the one that
//! hands a key change of the follower to the engine, and the polling cycle of
//! the timer, which takes several steps. A task that holds the keyboard runs
//! at the ceiling, the highest priority of any task that uses it, so the other
//! one cannot come in between. This module states that rule and proves what
//! it is for: whatever is preempted when, the keyboard ends as if the tasks
//! had run whole, one after the other.

use keyberon::layout::Layout;
use vstd::prelude::*;
use crate::active::{CustomEvent, Poll, SiberonActive};
use crate::debounce::DebounceState;
use crate::engine::{engine_event, engine_events, engine_report, engine_tick};
use crate::schedule::Activity;
use crate::Event;

verus! {

/// The priority at which a task runs while it holds the keyboard.
pub const STATE_CEILING: u8 = 3;

/// Whether `activity` is one of the two tasks that change the keyboard.
pub open spec fn uses_keyboard(activity: Activity) -> bool {
    activity is HandleEvent || activity is Tick
}

/// The priority at which `holder` runs while it holds the keyboard: the
/// ceiling, or its own priority if that is higher.
pub open spec fn locked_rank(holder: Activity) -> u8 {
    if holder.rank() > STATE_CEILING {
        holder.rank()
    } else {
        STATE_CEILING
    }
}

/// Whether `activity` may preempt `holder` while `holder` holds the keyboard:
/// only a task of higher priority than the holder's runs.
pub open spec fn may_preempt(activity: Activity, holder: Activity) -> bool {
    activity.rank() > locked_rank(holder)
}

/// What the two tasks share: the debouncers of the leader's matrix and the
/// layer engine.
pub struct Keyboard {
    pub debounce: DebounceState,
    pub engine: Layout,
}

/// The keyboard inside `siberon`.
pub open spec fn keyboard_of(siberon: SiberonActive) -> Keyboard {
    Keyboard { debounce: siberon.debounce(), engine: siberon.engine() }
}

impl Keyboard {
    /// The keyboard after a whole `handle_event`.
    pub open spec fn handled(self, event: Event) -> Keyboard {
        Keyboard { engine: engine_event(self.engine, event), ..self }
    }

    /// The keyboard after the first step of a polling cycle, `process_events`.
    pub open spec fn scanned(self, frame: Seq<Seq<bool>>) -> Keyboard {
        Keyboard {
            debounce: self.debounce.step(frame),
            engine: engine_events(self.engine, self.debounce.emitted(frame)),
        }
    }

    /// The keyboard after the second step of a polling cycle, `tick`.
    pub open spec fn ticked(self) -> Keyboard {
        Keyboard { engine: engine_tick(self.engine), ..self }
    }

    /// What the last step of a polling cycle, `report`, hands on.
    pub open spec fn reported(self) -> Poll {
        Poll { custom_event: CustomEvent::NoEvent, report: engine_report(self.engine) }
    }

    /// The keyboard after a whole `poll`.
    pub open spec fn polled(self, frame: Seq<Seq<bool>>) -> Keyboard {
        self.scanned(frame).ticked()
    }
}

/// How far the polling cycle has come while it holds the keyboard.
pub enum Stage {
    /// It does not hold the keyboard.
    Idle,
    /// The sample has been taken in; the tick is still to come.
    Scanned,
    /// The tick is done; the report is still to be taken.
    Ticked,
}

/// One step of one task.
pub enum Move {
    /// The whole of the task that hands `Event` to the engine.
    Handle(Event),
    /// The polling cycle takes the keyboard and takes in a sample.
    PollEvents(Seq<Seq<bool>>),
    /// The polling cycle gives the engine its tick.
    PollTick,
    /// The polling cycle takes the report and lets go of the keyboard.
    PollReport,
    /// A step of a task that does not touch the keyboard.
    Other(Activity),
}

/// A whole task on the keyboard.
pub enum Job {
    /// `handle_event` with this event.
    Handle(Event),
    /// `poll` with this sample.
    Poll(Seq<Seq<bool>>),
}

/// The keyboard while tasks run and preempt each other.
pub struct Run {
    /// The keyboard as it stands.
    pub keyboard: Keyboard,
    /// How far the polling cycle has come.
    pub stage: Stage,
    /// What the polling cycles have handed on so far.
    pub polls: Seq<Poll>,
}

impl Run {
    /// Whether the step `mv` can happen now. The polling cycle takes its
    /// steps in order. Any other task runs while nobody holds the keyboard,
    /// or else by preempting the polling cycle, which holds it.
    pub open spec fn admits(self, mv: Move) -> bool {
        match mv {
            Move::Handle(_) => self.stage is Idle || may_preempt(
                Activity::HandleEvent,
                Activity::Tick,
            ),
            Move::PollEvents(_) => self.stage is Idle,
            Move::PollTick => self.stage is Scanned,
            Move::PollReport => self.stage is Ticked,
            Move::Other(activity) => !uses_keyboard(activity) && (self.stage is Idle || may_preempt(
                activity,
                Activity::Tick,
            )),
        }
    }

    /// The run after the step `mv`.
    pub open spec fn after(self, mv: Move) -> Run {
        match mv {
            Move::Handle(event) => Run { keyboard: self.keyboard.handled(event), ..self },
            Move::PollEvents(frame) => Run {
                keyboard: self.keyboard.scanned(frame),
                stage: Stage::Scanned,
                ..self
            },
            Move::PollTick => Run { keyboard: self.keyboard.ticked(), stage: Stage::Ticked, ..self },
            Move::PollReport => Run {
                stage: Stage::Idle,
                polls: self.polls.push(self.keyboard.reported()),
                ..self
            },
            Move::Other(_) => self,
        }
    }

    /// The run after each of `moves` in turn.
    pub open spec fn after_all(self, moves: Seq<Move>) -> Run
        decreases moves.len(),
    {
        if moves.len() == 0 {
            self
        } else {
            self.after_all(moves.drop_last()).after(moves.last())
        }
    }

    /// Whether each of `moves` can happen when its turn comes.
    pub open spec fn admits_all(self, moves: Seq<Move>) -> bool
        decreases moves.len(),
    {
        moves.len() == 0 || (self.admits_all(moves.drop_last()) && self.after_all(
            moves.drop_last(),
        ).admits(moves.last()))
    }

    /// The run once the polling cycle, if it holds the keyboard, has gone on
    /// to its end with nothing in between.
    pub open spec fn finished(self) -> Run {
        match self.stage {
            Stage::Idle => self,
            Stage::Scanned => self.after(Move::PollTick).after(Move::PollReport),
            Stage::Ticked => self.after(Move::PollReport),
        }
    }

    /// The run after the whole task `job`, with nothing in between.
    pub open spec fn after_job(self, job: Job) -> Run {
        match job {
            Job::Handle(event) => Run { keyboard: self.keyboard.handled(event), ..self },
            Job::Poll(frame) => Run {
                keyboard: self.keyboard.polled(frame),
                polls: self.polls.push(self.keyboard.polled(frame).reported()),
                ..self
            },
        }
    }

    /// The run after each of `jobs` in turn, each one whole.
    pub open spec fn after_jobs(self, jobs: Seq<Job>) -> Run
        decreases jobs.len(),
    {
        if jobs.len() == 0 {
            self
        } else {
            self.after_jobs(jobs.drop_last()).after_job(jobs.last())
        }
    }
}

/// The whole tasks that `moves` are the steps of, in the order in which they
/// took the keyboard.
pub open spec fn jobs_of(moves: Seq<Move>) -> Seq<Job>
    decreases moves.len(),
{
    if moves.len() == 0 {
        Seq::empty()
    } else {
        let before = jobs_of(moves.drop_last());
        match moves.last() {
            Move::Handle(event) => before.push(Job::Handle(event)),
            Move::PollEvents(frame) => before.push(Job::Poll(frame)),
            _ => before,
        }
    }
}

/// The ceiling is the highest priority of the tasks that use the keyboard,
/// so neither of them can preempt the other while it holds the keyboard.
pub proof fn lemma_ceiling_keeps_users_out(activity: Activity, holder: Activity)
    requires
        uses_keyboard(activity),
        uses_keyboard(holder),
    ensures
        activity.rank() <= STATE_CEILING,
        Activity::HandleEvent.rank() == STATE_CEILING,
        !may_preempt(activity, holder),
{
}

/// Whatever steps the tasks take, and whichever task preempts which as far
/// as the ceiling lets it, the keyboard is never torn: at every moment, once
/// the polling cycle that holds the keyboard has gone on to its end, the
/// keyboard and the results handed on are those of the same tasks run whole,
/// one after the other, in the order in which they took the keyboard. So a
/// polling cycle sees every key change of the follower wholly applied or not
/// at all, and hands on what it would have without being preempted.
pub proof fn lemma_no_torn_state(start: Keyboard, moves: Seq<Move>)
    requires
        (Run { keyboard: start, stage: Stage::Idle, polls: Seq::empty() }).admits_all(moves),
    ensures
        ({
            let begin = Run { keyboard: start, stage: Stage::Idle, polls: Seq::<Poll>::empty() };
            begin.after_all(moves).finished() == begin.after_jobs(jobs_of(moves))
        }),
    decreases moves.len(),
{
    let begin = Run { keyboard: start, stage: Stage::Idle, polls: Seq::<Poll>::empty() };
    if moves.len() > 0 {
        let earlier = moves.drop_last();
        lemma_no_torn_state(start, earlier);
        lemma_ceiling_keeps_users_out(Activity::HandleEvent, Activity::Tick);
        let run = begin.after_all(earlier);
        assert(run.admits(moves.last()));
        let jobs = jobs_of(earlier);
        match moves.last() {
            Move::Handle(event) => {
                assert(run.stage is Idle);
                assert(jobs.push(Job::Handle(event)).drop_last() == jobs);
            },
            Move::PollEvents(frame) => {
                assert(run.stage is Idle);
                assert(jobs.push(Job::Poll(frame)).drop_last() == jobs);
            },
            Move::PollTick => {},
            Move::PollReport => {},
            Move::Other(activity) => {},
        }
    }
}

} // verus!
