//! A job: the lines of a program are sent one after the other.
use crate::effect;
use crate::effect::{Effect, EffectView, Event, EventView, Progress};
use crate::line;
use crate::line::{LineStage, LineStep, StageView, StepView};
use crate::offset;
use crate::single::Single;
use crate::status;
use crate::status::{JobStatus, StatusView};
use crate::text;
use vstd::prelude::*;

verus! {

/// How far a job has come.
#[derive(Debug)]
enum JobPhase {
    /// The machine is being unlocked.
    Unlocking,
    /// The status is about to decide whether the next line may be sent.
    Barrier,
    /// The status has let the line pass, and is looked at once more.
    Checked,
    /// The operator is being asked for the Z offset.
    OffsetAsked,
    /// A line is being sent.
    Line(LineStage),
    /// No more lines are sent.
    Finishing,
    /// The job is over.
    Ended,
}

/// A phase with its line as characters.
pub enum PhaseView {
    Unlocking,
    Barrier,
    Checked,
    OffsetAsked,
    Line(StageView),
    Finishing,
    Ended,
}

/// The lines of a program on their way to the machine.
#[derive(Debug)]
pub struct JobTask {
    lines: Vec<String>,
    index: usize,
    phase: JobPhase,
}

/// A job with its lines as characters.
pub struct JobView {
    /// The lines of the program.
    pub lines: Seq<Seq<char>>,
    /// The line that is sent, or the first one that is still to be sent.
    pub index: usize,
    /// How far the job has come.
    pub phase: PhaseView,
}

impl View for JobTask {
    type V = JobView;

    closed spec fn view(&self) -> JobView {
        JobView {
            lines: text::texts(self.lines@),
            index: self.index,
            phase: match self.phase {
                JobPhase::Unlocking => PhaseView::Unlocking,
                JobPhase::Barrier => PhaseView::Barrier,
                JobPhase::Checked => PhaseView::Checked,
                JobPhase::OffsetAsked => PhaseView::OffsetAsked,
                JobPhase::Line(stage) => PhaseView::Line(stage@),
                JobPhase::Finishing => PhaseView::Finishing,
                JobPhase::Ended => PhaseView::Ended,
            },
        }
    }
}

/// Whether a job can be in this state: a line that is about to be sent is a
/// line of the program.
pub open spec fn job_fits(job: JobView) -> bool {
    &&& job.lines.len() <= usize::MAX
    &&& match job.phase {
        PhaseView::Checked | PhaseView::OffsetAsked => job.index < job.lines.len(),
        PhaseView::Line(stage) => {
            &&& job.index < job.lines.len()
            &&& line::stage_fits(stage)
            &&& stage matches StageView::Adding { line, .. } ==> line == job.lines[job.index as int]
        },
        _ => true,
    }
}

/// A job at its start.
pub open spec fn job_start(lines: Seq<Seq<char>>, index: usize) -> JobView {
    JobView { lines, index, phase: PhaseView::Unlocking }
}

/// What is done first in a job.
pub open spec fn opening() -> Seq<EffectView> {
    seq![EffectView::Send("$X"@)]
}

/// Whether `event` answers what the job waits for.
pub open spec fn job_expects(job: JobView, event: EventView) -> bool {
    match job.phase {
        PhaseView::Unlocking => event is Reply,
        PhaseView::Line(stage) => line::stage_expects(stage, event),
        _ => event is Done,
    }
}

/// Whether a job comes to its end under this status.
pub open spec fn ends_jobs(status: StatusView) -> bool {
    status is Stopping || status is Error
}

/// The status that a job leaves behind.
pub open spec fn outcome(status: StatusView) -> StatusView {
    match status {
        StatusView::Stopping => StatusView::Idle,
        StatusView::Error(message) => StatusView::Error(message),
        _ => StatusView::Complete,
    }
}

/// A job in another phase.
pub open spec fn in_phase(job: JobView, phase: PhaseView) -> JobView {
    JobView { phase, ..job }
}

/// The end of a job: the outcome is kept and shown, with no line and either no
/// progress, after a stop, or all of it.
pub open spec fn job_finish(job: JobView, status: StatusView) -> (JobView, Seq<EffectView>) {
    (
        in_phase(job, PhaseView::Ended),
        seq![
            EffectView::KeepStatus(outcome(status)),
            EffectView::ShowProgress {
                current: effect::NO_LINE,
                progress: if outcome(status) is Idle {
                    Progress::Nothing
                } else {
                    Progress::Everything
                },
            },
            EffectView::ShowStatus(status::status_text(outcome(status))),
            EffectView::End,
        ],
    )
}

/// What the status does before a line: it ends the job, holds it, or lets the
/// line pass. After the last line the job is finished.
pub open spec fn job_barrier(job: JobView, status: StatusView) -> (JobView, Seq<EffectView>) {
    if job.index >= job.lines.len() {
        job_finish(job, status)
    } else {
        match status {
            StatusView::Stopping | StatusView::Error(_) => (
                in_phase(job, PhaseView::Ended),
                seq![EffectView::End],
            ),
            StatusView::Paused => (
                in_phase(job, PhaseView::Barrier),
                seq![EffectView::AwaitNextLine],
            ),
            StatusView::WaitingForZOffset => (
                in_phase(job, PhaseView::Barrier),
                seq![EffectView::AwaitOffset],
            ),
            _ => (in_phase(job, PhaseView::Checked), seq![EffectView::Proceed]),
        }
    }
}

/// A job that has begun to send its line.
pub open spec fn job_sending(job: JobView, offset: Single) -> JobView {
    in_phase(job, PhaseView::Line(line::first_stage(job.lines[job.index as int], offset)))
}

/// What follows a phase, under the status and the Z offset of the moment.
pub open spec fn job_next(
    job: JobView,
    status: StatusView,
    offset: Single,
    event: EventView,
) -> (JobView, Seq<EffectView>) {
    match job.phase {
        PhaseView::Unlocking | PhaseView::Barrier => job_barrier(job, status),
        PhaseView::Checked => if ends_jobs(status) {
            job_finish(job, status)
        } else if text::occurs("G54"@, job.lines[job.index as int]) {
            (
                in_phase(job, PhaseView::OffsetAsked),
                seq![
                    EffectView::KeepStatus(StatusView::WaitingForZOffset),
                    EffectView::ShowOffsetRequest(true),
                    EffectView::AwaitOffset,
                ],
            )
        } else {
            (
                job_sending(job, offset),
                seq![line::first_effect(job.lines[job.index as int], offset)],
            )
        },
        PhaseView::OffsetAsked => (
            job_sending(job, offset),
            seq![
                EffectView::ShowOffsetRequest(false),
                line::first_effect(job.lines[job.index as int], offset),
            ],
        ),
        PhaseView::Line(stage) => match line::line_next(stage, event) {
            StepView::More(stage, plan) => (in_phase(job, PhaseView::Line(stage)), plan),
            StepView::Failed => (
                in_phase(job, PhaseView::Finishing),
                seq![
                    EffectView::KeepStatus(StatusView::Error("Send failed"@)),
                    EffectView::Proceed,
                ],
            ),
            StepView::Finished => (
                JobView { index: (job.index + 1) as usize, phase: PhaseView::Barrier, ..job },
                seq![
                    EffectView::KeepNextIndex((job.index + 1) as usize),
                    EffectView::ShowProgress {
                        current: job.index as i32,
                        progress: Progress::Part {
                            done: (job.index + 1) as usize,
                            total: job.lines.len() as usize,
                        },
                    },
                    EffectView::Proceed,
                ],
            ),
        },
        PhaseView::Finishing => job_finish(job, status),
        PhaseView::Ended => (job, seq![EffectView::End]),
    }
}

impl JobTask {
    /// A job on `lines`, from the line `index` on, and what is to be done first.
    pub fn start(lines: Vec<String>, index: usize) -> (r: (JobTask, Vec<Effect>))
        ensures
            job_fits(r.0@),
            r.0@ == job_start(text::texts(lines@), index),
            effect::effects(r.1@) == opening(),
            effect::effects(r.1@) == seq![EffectView::Send("$X"@)],
    {
        let job = JobTask { lines, index, phase: JobPhase::Unlocking };
        assert(text::texts(lines@).len() == lines.len());
        (job, effect::one(Effect::Send("$X".to_owned())))
    }

    /// Whether the job is over.
    pub fn is_over(&self) -> (r: bool)
        ensures
            r == (self@.phase is Ended),
    {
        match self.phase {
            JobPhase::Ended => true,
            _ => false,
        }
    }

    /// Whether `event` answers what the job waits for.
    pub fn expects(&self, event: &Event) -> (r: bool)
        requires
            job_fits(self@),
        ensures
            r == job_expects(self@, event@),
    {
        match &self.phase {
            JobPhase::Unlocking => match event {
                Event::Reply(_) => true,
                _ => false,
            },
            JobPhase::Line(stage) => stage.expects(event),
            _ => match event {
                Event::Done => true,
                _ => false,
            },
        }
    }

    /// The end of the job.
    fn finish(self, status: &JobStatus) -> (r: (JobTask, Vec<Effect>))
        requires
            job_fits(self@),
        ensures
            job_fits(r.0@),
            (r.0@, effect::effects(r.1@)) == job_finish(self@, status@),
    {
        let outcome = match status {
            JobStatus::Stopping => JobStatus::Idle,
            JobStatus::Error(message) => JobStatus::Error(message.clone()),
            _ => JobStatus::Complete,
        };
        let progress = match outcome {
            JobStatus::Idle => Progress::Nothing,
            _ => Progress::Everything,
        };
        let shown = outcome.to_slint_string();
        let plan = effect::and(
            effect::and(
                effect::and(
                    effect::one(Effect::KeepStatus(outcome)),
                    Effect::ShowProgress { current: effect::NO_LINE, progress },
                ),
                Effect::ShowStatus(shown),
            ),
            Effect::End,
        );
        let job = JobTask { lines: self.lines, index: self.index, phase: JobPhase::Ended };
        assert(effect::effects(plan@) =~= job_finish(self@, status@).1);
        (job, plan)
    }

    /// What the status does before a line.
    fn barrier(self, status: &JobStatus) -> (r: (JobTask, Vec<Effect>))
        requires
            job_fits(self@),
        ensures
            job_fits(r.0@),
            (r.0@, effect::effects(r.1@)) == job_barrier(self@, status@),
    {
        assert(text::texts(self.lines@).len() == self.lines.len());
        if self.index >= self.lines.len() {
            return self.finish(status);
        }
        let (phase, next) = match status {
            JobStatus::Stopping | JobStatus::Error(_) => (JobPhase::Ended, Effect::End),
            JobStatus::Paused => (JobPhase::Barrier, Effect::AwaitNextLine),
            JobStatus::WaitingForZOffset => (JobPhase::Barrier, Effect::AwaitOffset),
            _ => (JobPhase::Checked, Effect::Proceed),
        };
        (JobTask { lines: self.lines, index: self.index, phase }, effect::one(next))
    }

    /// What follows, under the status and the Z offset of the moment.
    pub fn step(self, status: &JobStatus, offset: Single, event: Event) -> (r: (
        JobTask,
        Vec<Effect>,
    ))
        requires
            job_fits(self@),
            job_expects(self@, event@),
        ensures
            job_fits(r.0@),
            (r.0@, effect::effects(r.1@)) == job_next(self@, status@, offset, event@),
            sends_line(r.0@) ==> offset::known_in_ascii(
                self@.lines[self@.index as int],
                offset,
            ),
    {
        assert(text::texts(self.lines@).len() == self.lines.len());
        let ghost before = self@;
        match self.phase {
            JobPhase::Unlocking | JobPhase::Barrier => self.barrier(status),
            JobPhase::Checked => {
                let ending = match status {
                    JobStatus::Stopping | JobStatus::Error(_) => true,
                    _ => false,
                };
                if ending {
                    return self.finish(status);
                }
                if text::contains(self.lines[self.index].as_str(), "G54") {
                    let plan = effect::and(
                        effect::and(
                            effect::one(Effect::KeepStatus(JobStatus::WaitingForZOffset)),
                            Effect::ShowOffsetRequest(true),
                        ),
                        Effect::AwaitOffset,
                    );
                    assert(effect::effects(plan@) =~= job_next(before, status@, offset, event@).1);
                    let job = JobTask {
                        lines: self.lines,
                        index: self.index,
                        phase: JobPhase::OffsetAsked,
                    };
                    (job, plan)
                } else {
                    let (stage, next) = LineStage::begin(self.lines[self.index].as_str(), offset);
                    let job = JobTask {
                        lines: self.lines,
                        index: self.index,
                        phase: JobPhase::Line(stage),
                    };
                    (job, effect::one(next))
                }
            },
            JobPhase::OffsetAsked => {
                let (stage, next) = LineStage::begin(self.lines[self.index].as_str(), offset);
                let plan = effect::and(effect::one(Effect::ShowOffsetRequest(false)), next);
                assert(effect::effects(plan@) =~= job_next(before, status@, offset, event@).1);
                let job = JobTask {
                    lines: self.lines,
                    index: self.index,
                    phase: JobPhase::Line(stage),
                };
                (job, plan)
            },
            JobPhase::Line(stage) => match stage.step(event) {
                LineStep::More(stage, plan) => {
                    let job = JobTask {
                        lines: self.lines,
                        index: self.index,
                        phase: JobPhase::Line(stage),
                    };
                    (job, plan)
                },
                LineStep::Failed => {
                    let plan = effect::and(
                        effect::one(
                            Effect::KeepStatus(JobStatus::Error("Send failed".to_owned())),
                        ),
                        Effect::Proceed,
                    );
                    assert(effect::effects(plan@) =~= job_next(before, status@, offset, event@).1);
                    let job = JobTask {
                        lines: self.lines,
                        index: self.index,
                        phase: JobPhase::Finishing,
                    };
                    (job, plan)
                },
                LineStep::Finished => {
                    let done: usize = self.index + 1;
                    let total: usize = self.lines.len();
                    let plan = effect::and(
                        effect::and(
                            effect::one(Effect::KeepNextIndex(done)),
                            Effect::ShowProgress {
                                current: self.index as i32,
                                progress: Progress::Part { done, total },
                            },
                        ),
                        Effect::Proceed,
                    );
                    assert(effect::effects(plan@) =~= job_next(before, status@, offset, event@).1);
                    (JobTask { lines: self.lines, index: done, phase: JobPhase::Barrier }, plan)
                },
            },
            JobPhase::Finishing => self.finish(status),
            JobPhase::Ended => (self, effect::one(Effect::End)),
        }
    }
}

/// What a job is given at one of its steps.
pub struct JobInput {
    pub status: StatusView,
    pub offset: Single,
    pub event: EventView,
}

/// A job after some steps.
pub open spec fn job_after(job: JobView, inputs: Seq<JobInput>) -> JobView
    decreases inputs.len(),
{
    if inputs.len() == 0 {
        job
    } else {
        let input = inputs.last();
        job_next(
            job_after(job, inputs.drop_last()),
            input.status,
            input.offset,
            input.event,
        ).0
    }
}

/// Whether at each step the job is given what it waits for.
pub open spec fn inputs_fit(job: JobView, inputs: Seq<JobInput>) -> bool
    decreases inputs.len(),
{
    inputs.len() > 0 ==> {
        &&& inputs_fit(job, inputs.drop_last())
        &&& job_expects(job_after(job, inputs.drop_last()), inputs.last().event)
    }
}

/// Whether a step of the job sends a line of the program.
pub open spec fn sends_line(job: JobView) -> bool {
    job.phase matches PhaseView::Line(stage) && stage is Adding
}

/// The lines of the program that a job sends, each by its place in the program
/// and as it goes out.
pub open spec fn lines_sent(job: JobView, inputs: Seq<JobInput>) -> Seq<(usize, Seq<char>)>
    decreases inputs.len(),
{
    if inputs.len() == 0 {
        Seq::empty()
    } else {
        let before = job_after(job, inputs.drop_last());
        let input = inputs.last();
        let sent = lines_sent(job, inputs.drop_last());
        if sends_line(before) {
            let plan = job_next(before, input.status, input.offset, input.event).1;
            sent.push((before.index, plan[0]->Send_0))
        } else {
            sent
        }
    }
}

/// The line to be sent next that is kept after some steps of a job, where it
/// was `index` before them.
pub open spec fn next_index_kept(job: JobView, inputs: Seq<JobInput>, index: usize) -> usize
    decreases inputs.len(),
{
    if inputs.len() == 0 {
        index
    } else {
        let before = job_after(job, inputs.drop_last());
        let input = inputs.last();
        let plan = job_next(before, input.status, input.offset, input.event).1;
        match plan[0] {
            EffectView::KeepNextIndex(next) => next,
            _ => next_index_kept(job, inputs.drop_last(), index),
        }
    }
}

/// What holds of a job after some steps from its start, having sent `sent` lines.
spec fn on_track(start: usize, lines: Seq<Seq<char>>, at: JobView, sent: int) -> bool {
    &&& at.lines == lines
    &&& match at.phase {
        PhaseView::Unlocking | PhaseView::Barrier => at.index == start + sent,
        PhaseView::Checked | PhaseView::OffsetAsked => at.index == start + sent && at.index
            < lines.len(),
        PhaseView::Line(stage) => {
            &&& at.index < lines.len()
            &&& stage matches StageView::Adding { line, .. } ==> line == lines[at.index as int]
            &&& at.index == start + sent - (if stage is Adding {
                0int
            } else {
                1
            })
        },
        PhaseView::Finishing => at.index < lines.len() && at.index == start + sent - 1,
        PhaseView::Ended => true,
    }
}

/// Whether what was sent are lines of the program, one after the other.
spec fn in_order(start: usize, lines: Seq<Seq<char>>, sent: Seq<(usize, Seq<char>)>) -> bool {
    forall|k: int|
        0 <= k < sent.len() ==> (#[trigger] sent[k]).0 == start + k && sent[k].0 < lines.len()
}

/// A line that has begun does not begin again: it goes on, is finished, or has
/// failed while it was sent.
proof fn lemma_line_goes_on(job: JobView, event: EventView)
    ensures
        job.phase matches PhaseView::Line(stage) ==> match line::line_next(stage, event) {
            StepView::More(next, _) => !(next is Adding),
            StepView::Failed => stage is Sending,
            StepView::Finished => !(stage is Adding),
        },
{
}

proof fn lemma_on_track(start: usize, lines: Seq<Seq<char>>, inputs: Seq<JobInput>)
    requires
        lines.len() <= usize::MAX,
        inputs_fit(job_start(lines, start), inputs),
    ensures
        on_track(
            start,
            lines,
            job_after(job_start(lines, start), inputs),
            lines_sent(job_start(lines, start), inputs).len() as int,
        ),
        in_order(start, lines, lines_sent(job_start(lines, start), inputs)),
        next_index_kept(job_start(lines, start), inputs, start) == job_after(
            job_start(lines, start),
            inputs,
        ).index,
    decreases inputs.len(),
{
    let job = job_start(lines, start);
    if inputs.len() > 0 {
        lemma_on_track(start, lines, inputs.drop_last());
        let before = job_after(job, inputs.drop_last());
        let sent = lines_sent(job, inputs.drop_last());
        let input = inputs.last();
        let (after, plan) = job_next(before, input.status, input.offset, input.event);
        lemma_line_goes_on(before, input.event);
        assert(lines_sent(job, inputs).len() == sent.len() + (if sends_line(before) {
            1int
        } else {
            0
        }));
        let total = lines_sent(job, inputs);
        assert(on_track(start, lines, after, total.len() as int));
        assert(in_order(start, lines, total)) by {
            assert forall|k: int| 0 <= k < total.len() implies (#[trigger] total[k]).0 == start + k
                && total[k].0 < lines.len() by {
                if k < sent.len() {
                    assert(total[k] == sent[k]);
                }
            }
        }
        assert(next_index_kept(job, inputs, start) == after.index);
    }
}

/// A job sends the lines of its program one after the other, each once, from
/// the line it starts at on: the first one that goes out is that line, and each
/// further one is the line behind the one before.
pub proof fn law_lines_go_out_in_order(
    lines: Seq<Seq<char>>,
    start: usize,
    inputs: Seq<JobInput>,
    k: int,
)
    requires
        lines.len() <= usize::MAX,
        inputs_fit(job_start(lines, start), inputs),
        0 <= k < lines_sent(job_start(lines, start), inputs).len(),
    ensures
        lines_sent(job_start(lines, start), inputs)[k].0 == start + k,
        start + k < lines.len(),
{
    lemma_on_track(start, lines, inputs);
    let sent = lines_sent(job_start(lines, start), inputs);
    assert(sent[k].0 < lines.len());
}

/// As long as the Z offset is negligible, the lines go out as they stand in the
/// program.
pub proof fn law_without_offset_the_program_goes_out_unchanged(
    lines: Seq<Seq<char>>,
    start: usize,
    inputs: Seq<JobInput>,
    k: int,
)
    requires
        lines.len() <= usize::MAX,
        inputs_fit(job_start(lines, start), inputs),
        forall|i: int| 0 <= i < inputs.len() ==> offset::negligible(#[trigger] inputs[i].offset),
        0 <= k < lines_sent(job_start(lines, start), inputs).len(),
    ensures
        lines_sent(job_start(lines, start), inputs)[k].1 == lines[start + k],
{
    lemma_on_track(start, lines, inputs);
    lemma_unchanged(lines, start, inputs);
}

proof fn lemma_unchanged(lines: Seq<Seq<char>>, start: usize, inputs: Seq<JobInput>)
    requires
        lines.len() <= usize::MAX,
        inputs_fit(job_start(lines, start), inputs),
        forall|i: int| 0 <= i < inputs.len() ==> offset::negligible(#[trigger] inputs[i].offset),
    ensures
        ({
            let job = job_start(lines, start);
            let at = job_after(job, inputs);
            let sent = lines_sent(job, inputs);
            &&& at.phase matches PhaseView::Line(stage) ==> (stage matches StageView::Adding {
                spans,
                ..
            } ==> spans.len() == 0)
            &&& forall|k: int|
                0 <= k < sent.len() ==> (#[trigger] sent[k]).1 == lines[sent[k].0 as int]
        }),
    decreases inputs.len(),
{
    let job = job_start(lines, start);
    if inputs.len() > 0 {
        let front = inputs.drop_last();
        assert forall|i: int| 0 <= i < front.len() implies offset::negligible(
            #[trigger] front[i].offset,
        ) by {
            assert(front[i] == inputs[i]);
        }
        lemma_unchanged(lines, start, front);
        lemma_on_track(start, lines, front);
        let before = job_after(job, front);
        let input = inputs.last();
        assert(offset::negligible(inputs[inputs.len() - 1].offset));
        if sends_line(before) {
            let line = before.phase->Line_0->line;
            let spans = before.phase->Line_0->spans;
            let sums = input.event->Sums_0;
            offset::law_a_negligible_offset_changes_nothing(line, input.offset);
            assert(spans =~= Seq::empty());
            assert(sums =~= Seq::empty());
        }
    }
}

/// Whether `text` is the line `line` as it goes out where its sending began at
/// step `i`: the sums were asked for there, under the Z offset of that step,
/// and the next step brought them.
pub open spec fn goes_out_as(
    line: Seq<char>,
    text: Seq<char>,
    inputs: Seq<JobInput>,
    i: int,
) -> bool {
    &&& 0 <= i < inputs.len() - 1
    &&& inputs[i + 1].event is Sums
    &&& text == offset::replaced(
        line,
        offset::shifted_spans(line, inputs[i].offset),
        inputs[i + 1].event->Sums_0,
    )
}

/// Whether `text` is the line `line` as it goes out, begun at one of the steps.
pub open spec fn goes_out(line: Seq<char>, text: Seq<char>, inputs: Seq<JobInput>) -> bool {
    exists|i: int| goes_out_as(line, text, inputs, i)
}

/// Each line goes out with its Z words shifted by the offset that is in force
/// when its sending begins, and is otherwise as it stands in the program.
pub proof fn law_lines_go_out_with_the_offset(
    lines: Seq<Seq<char>>,
    start: usize,
    inputs: Seq<JobInput>,
    k: int,
)
    requires
        lines.len() <= usize::MAX,
        inputs_fit(job_start(lines, start), inputs),
        0 <= k < lines_sent(job_start(lines, start), inputs).len(),
    ensures
        goes_out(
            lines[start + k],
            lines_sent(job_start(lines, start), inputs)[k].1,
            inputs,
        ),
    decreases inputs.len(),
{
    let job = job_start(lines, start);
    if inputs.len() > 0 {
        let front = inputs.drop_last();
        let before = job_after(job, front);
        let sent = lines_sent(job, front);
        let text = lines_sent(job, inputs)[k].1;
        lemma_on_track(start, lines, front);
        if k < sent.len() {
            law_lines_go_out_with_the_offset(lines, start, front, k);
            let line = lines[start + k];
            let i = choose|i: int| goes_out_as(line, text, front, i);
            assert(goes_out_as(line, text, inputs, i));
        } else {
            lemma_begun(lines, start, front);
            assert(goes_out_as(lines[start + k], text, inputs, inputs.len() - 2));
        }
    }
}

/// A line whose sums are awaited has begun at the last step.
proof fn lemma_begun(lines: Seq<Seq<char>>, start: usize, inputs: Seq<JobInput>)
    requires
        lines.len() <= usize::MAX,
        inputs_fit(job_start(lines, start), inputs),
        sends_line(job_after(job_start(lines, start), inputs)),
    ensures
        inputs.len() > 0,
        ({
            let at = job_after(job_start(lines, start), inputs);
            at.phase == PhaseView::Line(
                line::first_stage(at.lines[at.index as int], inputs.last().offset),
            )
        }),
{
    let job = job_start(lines, start);
    let before = job_after(job, inputs.drop_last());
    lemma_line_goes_on(before, inputs.last().event);
}

/// A job that is through says so only when all is sent: where the status
/// becomes `Complete`, every line from the start on has gone out, and none where
/// the start lies behind the last line. A job that is finishing is left out,
/// since a line of it could not be sent.
pub proof fn law_complete_means_all_lines_are_sent(
    lines: Seq<Seq<char>>,
    start: usize,
    inputs: Seq<JobInput>,
    status: StatusView,
    offset: Single,
    event: EventView,
)
    requires
        lines.len() <= usize::MAX,
        inputs_fit(job_start(lines, start), inputs),
        !(job_after(job_start(lines, start), inputs).phase is Finishing),
        job_next(job_after(job_start(lines, start), inputs), status, offset, event).1.contains(
            EffectView::KeepStatus(StatusView::Complete),
        ),
    ensures
        lines_sent(job_start(lines, start), inputs).len() == (if start < lines.len() {
            lines.len() - start
        } else {
            0
        }),
{
    lemma_on_track(start, lines, inputs);
    let at = job_after(job_start(lines, start), inputs);
    let sent = lines_sent(job_start(lines, start), inputs);
    let plan = job_next(at, status, offset, event).1;
    if sent.len() > 0 {
        assert(sent[sent.len() - 1].0 == start + sent.len() - 1);
    }
    let k = choose|k: int|
        0 <= k < plan.len() && plan[k] == EffectView::KeepStatus(StatusView::Complete);
    assert(at.phase is Unlocking || at.phase is Barrier);
}

/// The line to be sent next, as a job keeps it, is the line that the job is at:
/// a job that is started after it goes on there.
pub proof fn law_the_next_line_is_kept(
    lines: Seq<Seq<char>>,
    start: usize,
    inputs: Seq<JobInput>,
)
    requires
        lines.len() <= usize::MAX,
        inputs_fit(job_start(lines, start), inputs),
    ensures
        next_index_kept(job_start(lines, start), inputs, start) == job_after(
            job_start(lines, start),
            inputs,
        ).index,
{
    lemma_on_track(start, lines, inputs);
}

/// What a job does at the step `i`.
pub open spec fn effects_at(job: JobView, inputs: Seq<JobInput>, i: int) -> Seq<EffectView> {
    let input = inputs[i];
    job_next(job_after(job, inputs.take(i)), input.status, input.offset, input.event).1
}

/// While the job is paused or waits for the offset, nothing gets through: each
/// step does nothing but to wait, and the job stays before its line.
pub proof fn law_a_held_job_sends_nothing(job: JobView, inputs: Seq<JobInput>)
    requires
        job.phase is Unlocking || job.phase is Barrier,
        job.index < job.lines.len(),
        forall|i: int|
            0 <= i < inputs.len() ==> (#[trigger] inputs[i]).status is Paused || inputs[i].status
                is WaitingForZOffset,
    ensures
        job_after(job, inputs) == (if inputs.len() == 0 {
            job
        } else {
            in_phase(job, PhaseView::Barrier)
        }),
        lines_sent(job, inputs).len() == 0,
        forall|i: int|
            0 <= i < inputs.len() ==> #[trigger] effects_at(job, inputs, i) == seq![
                if inputs[i].status is Paused {
                    EffectView::AwaitNextLine
                } else {
                    EffectView::AwaitOffset
                },
            ],
    decreases inputs.len(),
{
    if inputs.len() > 0 {
        let front = inputs.drop_last();
        let last = inputs.len() - 1;
        assert forall|i: int| 0 <= i < front.len() implies (#[trigger] front[i]).status is Paused
            || front[i].status is WaitingForZOffset by {
            assert(front[i] == inputs[i]);
        }
        law_a_held_job_sends_nothing(job, front);
        assert(inputs[last].status is Paused || inputs[last].status is WaitingForZOffset);
        assert forall|i: int| 0 <= i < inputs.len() implies #[trigger] effects_at(job, inputs, i)
            == seq![
            if inputs[i].status is Paused {
                EffectView::AwaitNextLine
            } else {
                EffectView::AwaitOffset
            },
        ] by {
            if i < last {
                assert(inputs.take(i) =~= front.take(i));
                assert(effects_at(job, front, i) == effects_at(job, inputs, i));
            } else {
                assert(inputs.take(i) =~= front);
            }
        }
    }
}

/// A job that finds itself stopped or in error before a line is over, and sends
/// nothing ever after. It leaves the status alone, unless it had let the line
/// pass just before: then it leaves the outcome behind.
pub proof fn law_a_stopped_job_is_over(
    job: JobView,
    status: StatusView,
    offset: Single,
    event: EventView,
    inputs: Seq<JobInput>,
)
    requires
        job.phase is Unlocking || job.phase is Barrier || job.phase is Checked,
        job.index < job.lines.len(),
        ends_jobs(status),
    ensures
        job_next(job, status, offset, event).1 == (if job.phase is Checked {
            job_finish(job, status).1
        } else {
            seq![EffectView::End]
        }),
        job_after(job_next(job, status, offset, event).0, inputs).phase is Ended,
        lines_sent(job_next(job, status, offset, event).0, inputs).len() == 0,
    decreases inputs.len(),
{
    if inputs.len() > 0 {
        law_a_stopped_job_is_over(job, status, offset, event, inputs.drop_last());
    }
}

/// A line that selects the work offset is not begun before the operator has
/// been asked for the Z offset.
pub proof fn law_g54_waits_for_the_offset(
    job: JobView,
    status: StatusView,
    offset: Single,
    event: EventView,
)
    requires
        text::occurs("G54"@, job.lines[job.index as int]),
        !sends_line(job),
        sends_line(job_next(job, status, offset, event).0),
    ensures
        job.phase is OffsetAsked,
{
    lemma_line_goes_on(job, event);
}

} // verus!
