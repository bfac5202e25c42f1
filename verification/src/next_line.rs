//! Sending a single line of the program, outside of a job.
use crate::controller;
use crate::controller::ControllerView;
use crate::effect;
use crate::effect::{Effect, EffectView, Event, EventView, Progress};
use crate::line;
use crate::line::{LineStage, LineStep, StageView, StepView};
use crate::offset;
use crate::single::Single;
use crate::status::{JobStatus, StatusView};
use vstd::prelude::*;

verus! {

/// How far the sending has come.
#[derive(Debug)]
enum NextLinePhase {
    /// The line is sent.
    Line(LineStage),
    /// It is over.
    Ended,
}

/// A phase with its line as characters.
pub enum NextLinePhaseView {
    Line(StageView),
    Ended,
}

/// A line of a program on its way to the machine.
#[derive(Debug)]
pub struct NextLineTask {
    index: usize,
    total: usize,
    phase: NextLinePhase,
}

/// Such a line with its text as characters.
pub struct NextLineView {
    /// The place of the line in the program.
    pub index: usize,
    /// How many lines the program has.
    pub total: usize,
    /// How far the sending has come.
    pub phase: NextLinePhaseView,
}

impl View for NextLineTask {
    type V = NextLineView;

    closed spec fn view(&self) -> NextLineView {
        NextLineView {
            index: self.index,
            total: self.total,
            phase: match self.phase {
                NextLinePhase::Line(stage) => NextLinePhaseView::Line(stage@),
                NextLinePhase::Ended => NextLinePhaseView::Ended,
            },
        }
    }
}

/// Whether the line is one of the program.
pub open spec fn next_line_fits(task: NextLineView) -> bool {
    &&& task.index < task.total
    &&& task.phase matches NextLinePhaseView::Line(stage) ==> line::stage_fits(stage)
}

/// Whether `event` answers what is waited for.
pub open spec fn next_line_expects(task: NextLineView, event: EventView) -> bool {
    match task.phase {
        NextLinePhaseView::Line(stage) => line::stage_expects(stage, event),
        NextLinePhaseView::Ended => event is Done,
    }
}

/// The status after the line: `Complete` after the last one.
pub open spec fn status_after(index: usize, total: usize) -> StatusView {
    if index + 1 >= total {
        StatusView::Complete
    } else {
        StatusView::Idle
    }
}

/// The sending of a line at its start, and what is to be done first.
pub open spec fn next_line_start(
    line: Seq<char>,
    index: usize,
    total: usize,
    offset: Single,
) -> (NextLineView, Seq<EffectView>) {
    (
        NextLineView {
            index,
            total,
            phase: NextLinePhaseView::Line(line::first_stage(line, offset)),
        },
        effect::update_status(StatusView::Running).push(line::first_effect(line, offset)),
    )
}

/// What follows.
pub open spec fn next_line_next(task: NextLineView, event: EventView) -> (
    NextLineView,
    Seq<EffectView>,
) {
    let ended = NextLineView { phase: NextLinePhaseView::Ended, ..task };
    match task.phase {
        NextLinePhaseView::Line(stage) => match line::line_next(stage, event) {
            StepView::More(stage, plan) => (
                NextLineView { phase: NextLinePhaseView::Line(stage), ..task },
                plan,
            ),
            StepView::Failed => (
                ended,
                effect::update_status(StatusView::Error("Send failed"@)).push(EffectView::End),
            ),
            StepView::Finished => (
                ended,
                (seq![
                    EffectView::KeepNextIndex((task.index + 1) as usize),
                    EffectView::ShowProgress {
                        current: task.index as i32,
                        progress: Progress::Part {
                            done: (task.index + 1) as usize,
                            total: task.total,
                        },
                    },
                ] + effect::update_status(status_after(task.index, task.total))).push(
                    EffectView::End,
                ),
            ),
        },
        NextLinePhaseView::Ended => (task, seq![EffectView::End]),
    }
}

impl NextLineTask {
    /// The sending of the line `index` of a program of `total` lines, and what
    /// is to be done first: the status becomes `Running`.
    pub fn start(line: &str, index: usize, total: usize, offset: Single) -> (r: (
        NextLineTask,
        Vec<Effect>,
    ))
        requires
            index < total,
        ensures
            next_line_fits(r.0@),
            (r.0@, effect::effects(r.1@)) == next_line_start(line@, index, total, offset),
            r.0@ == (NextLineView {
                index,
                total,
                phase: NextLinePhaseView::Line(line::first_stage(line@, offset)),
            }),
            effect::effects(r.1@) == effect::update_status(StatusView::Running).push(
                line::first_effect(line@, offset),
            ),
            offset::known_in_ascii(line@, offset),
    {
        let (stage, next) = LineStage::begin(line, offset);
        let running = effect::and_status(Vec::new(), JobStatus::Running);
        assert(effect::effects(running@) =~= effect::update_status(StatusView::Running));
        let plan = effect::and(running, next);
        (NextLineTask { index, total, phase: NextLinePhase::Line(stage) }, plan)
    }

    /// Whether the line is done with.
    pub fn is_over(&self) -> (r: bool)
        ensures
            r == (self@.phase is Ended),
    {
        match self.phase {
            NextLinePhase::Ended => true,
            _ => false,
        }
    }

    /// Whether `event` answers what is waited for.
    pub fn expects(&self, event: &Event) -> (r: bool)
        requires
            next_line_fits(self@),
        ensures
            r == next_line_expects(self@, event@),
    {
        match &self.phase {
            NextLinePhase::Line(stage) => stage.expects(event),
            NextLinePhase::Ended => match event {
                Event::Done => true,
                _ => false,
            },
        }
    }

    /// What follows.
    pub fn step(self, event: Event) -> (r: (NextLineTask, Vec<Effect>))
        requires
            next_line_fits(self@),
            next_line_expects(self@, event@),
        ensures
            next_line_fits(r.0@),
            (r.0@, effect::effects(r.1@)) == next_line_next(self@, event@),
    {
        let ghost before = self@;
        let index = self.index;
        let total = self.total;
        match self.phase {
            NextLinePhase::Line(stage) => match stage.step(event) {
                LineStep::More(stage, plan) => {
                    (NextLineTask { index, total, phase: NextLinePhase::Line(stage) }, plan)
                },
                LineStep::Failed => {
                    let failed = effect::and_status(
                        Vec::new(),
                        JobStatus::Error("Send failed".to_owned()),
                    );
                    let plan = effect::and(failed, Effect::End);
                    assert(effect::effects(plan@) =~= next_line_next(before, event@).1);
                    (NextLineTask { index, total, phase: NextLinePhase::Ended }, plan)
                },
                LineStep::Finished => {
                    let done: usize = index + 1;
                    let shown = effect::and(
                        effect::one(Effect::KeepNextIndex(done)),
                        Effect::ShowProgress {
                            current: index as i32,
                            progress: Progress::Part { done, total },
                        },
                    );
                    let status = if done >= total {
                        JobStatus::Complete
                    } else {
                        JobStatus::Idle
                    };
                    let plan = effect::and(effect::and_status(shown, status), Effect::End);
                    assert(effect::effects(plan@) =~= next_line_next(before, event@).1);
                    (NextLineTask { index, total, phase: NextLinePhase::Ended }, plan)
                },
            },
            NextLinePhase::Ended => (
                NextLineTask { index, total, phase: NextLinePhase::Ended },
                effect::one(Effect::End),
            ),
        }
    }
}

/// A line that was sent moves the program on by one line, and leaves the
/// controller idle, or complete after the last line.
pub proof fn law_a_sent_line_moves_on(c: ControllerView, task: NextLineView, event: EventView)
    requires
        next_line_fits(task),
        task.phase matches NextLinePhaseView::Line(stage) && line::line_next(stage, event)
            is Finished,
    ensures
        controller::after_effects(c, next_line_next(task, event).1) == (ControllerView {
            next_index: (task.index + 1) as usize,
            status: status_after(task.index, task.total),
            ..c
        }),
{
    reveal_with_fuel(controller::after_effects, 8);
}

/// A line that could not be sent stays the line to be sent next.
pub proof fn law_a_failed_line_stays_next(c: ControllerView, task: NextLineView, event: EventView)
    requires
        task.phase matches NextLinePhaseView::Line(stage) && line::line_next(stage, event)
            is Failed,
    ensures
        controller::after_effects(c, next_line_next(task, event).1) == (ControllerView {
            status: StatusView::Error("Send failed"@),
            ..c
        }),
{
    reveal_with_fuel(controller::after_effects, 6);
}

} // verus!
