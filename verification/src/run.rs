//! What a job and a single line do, from the first command to the last.
use crate::effect;
use crate::effect::{Effect, EffectView, Event, EventView, Progress};
use crate::job;
use crate::job::{JobInput, JobTask, JobView, PhaseView};
use crate::line;
use crate::line::{LineStage, LineStep, StageView, StepView};
use crate::next_line;
use crate::next_line::{NextLinePhaseView, NextLineTask, NextLineView};
use crate::offset;
use crate::single::Single;
use crate::status::{JobStatus, StatusView};
use crate::text;
use vstd::prelude::*;

verus! {

/// What a list of effects sends to the machine, from the first effect to the
/// last.
pub open spec fn sent_by(plan: Seq<EffectView>) -> Seq<Seq<char>>
    decreases plan.len(),
{
    if plan.len() == 0 {
        Seq::empty()
    } else {
        let front = sent_by(plan.drop_last());
        match plan.last() {
            EffectView::Send(line) => front.push(line),
            EffectView::SendAside(line) => front.push(line),
            EffectView::SendOneLine { line, .. } => front.push(line),
            _ => front,
        }
    }
}

/// Everything that a job sends to the machine, from its start through some steps.
pub open spec fn all_sent(start: JobView, inputs: Seq<JobInput>) -> Seq<Seq<char>>
    decreases inputs.len(),
{
    if inputs.len() == 0 {
        sent_by(job::opening())
    } else {
        let before = job::job_after(start, inputs.drop_last());
        let input = inputs.last();
        all_sent(start, inputs.drop_last()) + sent_by(
            job::job_next(before, input.status, input.offset, input.event).1,
        )
    }
}

/// Some lines, each with so many questions for the state right behind it.
pub open spec fn dialogue(lines: Seq<(usize, Seq<char>)>, asked: Seq<nat>) -> Seq<Seq<char>>
    decreases lines.len(),
{
    if lines.len() == 0 {
        Seq::empty()
    } else {
        dialogue(lines.drop_last(), asked.drop_last()).push(lines.last().1) + Seq::new(
            asked.last(),
            |i: int| "?"@,
        )
    }
}

/// The unlocking, and then the lines with the questions behind them.
pub open spec fn whole_dialogue(lines: Seq<(usize, Seq<char>)>, asked: Seq<nat>) -> Seq<
    Seq<char>,
> {
    seq!["$X"@] + dialogue(lines, asked)
}

/// All that a job ever sends to the machine is the unlocking, and then its lines,
/// each of them once, with nothing but questions for the state behind each.
pub proof fn law_a_job_sends_its_lines_once_and_nothing_else(
    lines: Seq<Seq<char>>,
    start: usize,
    inputs: Seq<JobInput>,
)
    requires
        job::inputs_fit(job::job_start(lines, start), inputs),
    ensures
        exists|asked: Seq<nat>|
            asked.len() == job::lines_sent(job::job_start(lines, start), inputs).len() && all_sent(
                job::job_start(lines, start),
                inputs,
            ) == #[trigger] whole_dialogue(
                job::lines_sent(job::job_start(lines, start), inputs),
                asked,
            ),
{
    let asked = lemma_dialogue(lines, start, inputs);
}

proof fn lemma_dialogue(lines: Seq<Seq<char>>, start: usize, inputs: Seq<JobInput>) -> (asked: Seq<
    nat,
>)
    requires
        job::inputs_fit(job::job_start(lines, start), inputs),
    ensures
        asked.len() == job::lines_sent(job::job_start(lines, start), inputs).len(),
        all_sent(job::job_start(lines, start), inputs) == whole_dialogue(
            job::lines_sent(job::job_start(lines, start), inputs),
            asked,
        ),
        job::job_after(job::job_start(lines, start), inputs).phase matches PhaseView::Line(stage)
            ==> !(stage is Adding) ==> asked.len() > 0,
    decreases inputs.len(),
{
    let first = job::job_start(lines, start);
    reveal_with_fuel(sent_by, 5);
    if inputs.len() == 0 {
        let asked = Seq::empty();
        assert(all_sent(first, inputs) =~= whole_dialogue(job::lines_sent(first, inputs), asked));
        asked
    } else {
        let front = inputs.drop_last();
        let input = inputs.last();
        let asked = lemma_dialogue(lines, start, front);
        let before = job::job_after(first, front);
        let plan = job::job_next(before, input.status, input.offset, input.event).1;
        let sent = job::lines_sent(first, front);
        let now = job::lines_sent(first, inputs);
        lemma_sent_at_a_step(before, input.status, input.offset, input.event);
        if job::sends_line(before) {
            let more = asked.push(0);
            assert(now.drop_last() =~= sent);
            assert(more.drop_last() =~= asked);
            assert(all_sent(first, inputs) =~= whole_dialogue(now, more));
            more
        } else if sent_by(plan).len() > 0 {
            let last = asked.len() - 1;
            let more = asked.update(last, asked[last] + 1);
            assert(more.drop_last() =~= asked.drop_last());
            assert(all_sent(first, inputs) =~= whole_dialogue(now, more));
            more
        } else {
            assert(all_sent(first, inputs) =~= whole_dialogue(now, asked));
            asked
        }
    }
}

/// What a step of a job sends: its line, a question, or nothing.
proof fn lemma_sent_at_a_step(
    job: JobView,
    status: StatusView,
    offset: Single,
    event: EventView,
)
    requires
        job::job_expects(job, event),
    ensures
        ({
            let (next, plan) = job::job_next(job, status, offset, event);
            &&& job::sends_line(job) ==> sent_by(plan) == seq![plan[0]->Send_0]
            &&& !job::sends_line(job) ==> sent_by(plan) == Seq::<Seq<char>>::empty() || (sent_by(
                plan,
            ) == seq!["?"@] && (job.phase matches PhaseView::Line(stage) && stage is Timing))
            &&& next.phase matches PhaseView::Line(stage) ==> !(stage is Adding) ==> job.phase
                is Line
        }),
{
    reveal_with_fuel(sent_by, 6);
    let plan = job::job_next(job, status, offset, event).1;
    match job.phase {
        PhaseView::Line(stage) => {
            match stage {
                StageView::Adding { line, spans } => {
                    assert(sent_by(plan) =~= seq![plan[0]->Send_0]);
                },
                StageView::Timing => {
                    if event->Deadline_0 {
                        assert(sent_by(plan) =~= Seq::empty());
                    } else {
                        assert(sent_by(plan) =~= seq!["?"@]);
                    }
                },
                _ => {
                    assert(sent_by(plan) =~= Seq::empty());
                },
            }
        },
        _ => {
            assert(sent_by(plan) =~= Seq::empty());
        },
    }
}

/// A job at its start is unlocked first, whatever it is to send, and is at the
/// line that it is given.
pub proof fn law_a_job_begins_with_the_unlocking(lines: Seq<Seq<char>>, index: usize)
    ensures
        job::opening() == seq![EffectView::Send("$X"@)],
        job::job_start(lines, index).lines == lines,
        job::job_start(lines, index).index == index,
        job::job_start(lines, index).phase is Unlocking,
{
}

/// Before a line the status decides: a stop or an error ends the job without a
/// word, a pause holds it until the next line is called for, a missing offset
/// until there is one, and under any other status the job goes on to the line.
/// The reply to the unlocking does not matter.
pub proof fn law_the_status_decides_before_a_line(
    job: JobView,
    status: StatusView,
    offset: Single,
    event: EventView,
)
    requires
        job.phase is Unlocking || job.phase is Barrier,
        job.index < job.lines.len(),
    ensures
        ({
            let (next, plan) = job::job_next(job, status, offset, event);
            &&& next.lines == job.lines && next.index == job.index
            &&& plan.len() == 1
            &&& status is Stopping || status is Error ==> next.phase is Ended && plan[0] is End
            &&& status is Paused ==> next.phase is Barrier && plan[0] is AwaitNextLine
            &&& status is WaitingForZOffset ==> next.phase is Barrier && plan[0] is AwaitOffset
            &&& status is Running || status is Idle || status is Complete ==> next.phase is Checked
                && plan[0] is Proceed
        }),
{
}

/// Behind its last line, after a line that could not be sent, and where it finds
/// itself stopped or in error right before a line, a job ends: after a stop idle
/// and without progress, in error with the same error, and or else complete, with
/// all of the progress. No line is the current one any more.
pub proof fn law_how_a_job_ends(job: JobView, status: StatusView, offset: Single, event: EventView)
    requires
        ({
            ||| (job.phase is Unlocking || job.phase is Barrier) && job.index >= job.lines.len()
            ||| job.phase is Finishing
            ||| job.phase is Checked && (status is Stopping || status is Error)
        }),
    ensures
        ({
            let (next, plan) = job::job_next(job, status, offset, event);
            &&& next.phase is Ended
            &&& next.lines == job.lines && next.index == job.index
            &&& status is Stopping ==> plan == seq![
                EffectView::KeepStatus(StatusView::Idle),
                EffectView::ShowProgress { current: -1i32, progress: Progress::Nothing },
                EffectView::ShowStatus("IDLE"@),
                EffectView::End,
            ]
            &&& status matches StatusView::Error(message) ==> plan == seq![
                EffectView::KeepStatus(StatusView::Error(message)),
                EffectView::ShowProgress { current: -1i32, progress: Progress::Everything },
                EffectView::ShowStatus("ERROR: "@ + message),
                EffectView::End,
            ]
            &&& !(status is Stopping || status is Error) ==> plan == seq![
                EffectView::KeepStatus(StatusView::Complete),
                EffectView::ShowProgress { current: -1i32, progress: Progress::Everything },
                EffectView::ShowStatus("COMPLETE"@),
                EffectView::End,
            ]
        }),
{
    let plan = job::job_next(job, status, offset, event).1;
    match status {
        StatusView::Stopping => {
            assert(plan[2] == EffectView::ShowStatus("IDLE"@));
        },
        StatusView::Error(message) => {
            assert(plan[2] == EffectView::ShowStatus("ERROR: "@ + message));
        },
        _ => {
            assert(plan[2] == EffectView::ShowStatus("COMPLETE"@));
        },
    }
}

/// A job that is over stays over and does nothing.
pub proof fn law_a_job_that_is_over_stays_over(
    job: JobView,
    status: StatusView,
    offset: Single,
    event: EventView,
)
    requires
        job.phase is Ended,
    ensures
        job::job_next(job, status, offset, event) == (job, seq![EffectView::End]),
{
}

/// What a job does to begin its line: the offset of the moment is added to the
/// numbers of the words that it shifts.
pub open spec fn begins_line(next: JobView, asked: EffectView, job: JobView, offset: Single) -> bool {
    let text = job.lines[job.index as int];
    let spans = offset::shifted_spans(text, offset);
    &&& next.lines == job.lines && next.index == job.index
    &&& next.phase == PhaseView::Line(StageView::Adding { line: text, spans })
    &&& asked == (EffectView::AddOffset { numbers: offset::numbers_of(text, spans), offset })
}

/// At a line with `G54` a job asks for the Z offset before it begins the line,
/// and waits; at any other line it begins the line at once and asks for nothing.
pub proof fn law_the_offset_is_asked_for_at_g54_alone(
    job: JobView,
    status: StatusView,
    offset: Single,
    event: EventView,
)
    requires
        job.phase is Checked,
        !(status is Stopping || status is Error),
    ensures
        ({
            let (next, plan) = job::job_next(job, status, offset, event);
            let text = job.lines[job.index as int];
            &&& text::stands_in("G54"@, text) ==> {
                &&& next.phase is OffsetAsked
                &&& next.lines == job.lines && next.index == job.index
                &&& plan == seq![
                    EffectView::KeepStatus(StatusView::WaitingForZOffset),
                    EffectView::ShowOffsetRequest(true),
                    EffectView::AwaitOffset,
                ]
            }
            &&& !text::stands_in("G54"@, text) ==> plan.len() == 1 && begins_line(
                next,
                plan[0],
                job,
                offset,
            )
        }),
{
    text::law_what_occurs("G54"@, job.lines[job.index as int]);
}

/// However a job comes to ask for the Z offset, the line that it is at holds
/// `G54`.
pub proof fn law_no_other_line_asks_for_the_offset(
    job: JobView,
    status: StatusView,
    offset: Single,
    event: EventView,
)
    requires
        job::job_next(job, status, offset, event).0.phase is OffsetAsked || job::job_next(
            job,
            status,
            offset,
            event,
        ).1.contains(EffectView::ShowOffsetRequest(true)),
    ensures
        job.phase is Checked,
        text::stands_in("G54"@, job.lines[job.index as int]),
{
    let (next, plan) = job::job_next(job, status, offset, event);
    text::law_what_occurs("G54"@, job.lines[job.index as int]);
    if plan.contains(EffectView::ShowOffsetRequest(true)) {
        let k = choose|k: int|
            0 <= k < plan.len() && plan[k] == EffectView::ShowOffsetRequest(true);
        assert(plan[k] is ShowOffsetRequest);
    }
}

/// With the answer of the operator the request is taken away and the line begun,
/// with the offset that is in force then.
pub proof fn law_the_answer_begins_the_line(
    job: JobView,
    status: StatusView,
    offset: Single,
    event: EventView,
)
    requires
        job.phase is OffsetAsked,
    ensures
        ({
            let (next, plan) = job::job_next(job, status, offset, event);
            &&& plan.len() == 2
            &&& plan[0] == EffectView::ShowOffsetRequest(false)
            &&& begins_line(next, plan[1], job, offset)
        }),
{
}

/// Whether a machine that has answered with `reply` rests.
pub open spec fn rests(reply: Option<Seq<char>>) -> bool {
    reply matches Some(said) && text::stands_in("<Idle"@, said)
}

/// A line goes out with the sums in it, once. When the machine has taken it, it is
/// asked again and again, with a pause between two questions, until it rests or
/// half a minute is over.
pub proof fn law_how_a_line_is_sent(
    line: Seq<char>,
    spans: Seq<(usize, usize)>,
    sums: Seq<Seq<char>>,
    reply: Option<Seq<char>>,
)
    ensures
        line::line_next(StageView::Adding { line, spans }, EventView::Sums(sums)) == StepView::More(
            StageView::Sending,
            seq![EffectView::Send(offset::replaced(line, spans, sums))],
        ),
        reply is Some ==> line::line_next(StageView::Sending, EventView::Reply(reply))
            == StepView::More(
            StageView::Timing,
            seq![EffectView::SetDeadline(30), EffectView::CheckDeadline],
        ),
        reply is None ==> line::line_next(StageView::Sending, EventView::Reply(reply))
            == StepView::Failed,
        line::line_next(StageView::Timing, EventView::Deadline(false)) == StepView::More(
            StageView::Asking,
            seq![EffectView::Send("?"@)],
        ),
        line::line_next(StageView::Timing, EventView::Deadline(true)) == StepView::Finished,
        rests(reply) ==> line::line_next(StageView::Asking, EventView::Reply(reply))
            == StepView::Finished,
        !rests(reply) ==> line::line_next(StageView::Asking, EventView::Reply(reply))
            == StepView::More(StageView::Resting, seq![EffectView::Sleep(80)]),
        line::line_next(StageView::Resting, EventView::Done) == StepView::More(
            StageView::Timing,
            seq![EffectView::CheckDeadline],
        ),
{
    if reply is Some {
        text::law_what_occurs("<Idle"@, reply->0);
    }
}

/// What the sending of a line waits for: a sum for each of its words, a reply to
/// what was sent, the clock, or the end of the pause.
pub proof fn law_what_a_line_waits_for(stage: StageView, event: EventView)
    ensures
        line::stage_expects(stage, event) <==> match (stage, event) {
            (StageView::Adding { spans, .. }, EventView::Sums(sums)) => sums.len() == spans.len(),
            (StageView::Sending, EventView::Reply(_)) => true,
            (StageView::Asking, EventView::Reply(_)) => true,
            (StageView::Timing, EventView::Deadline(_)) => true,
            (StageView::Resting, EventView::Done) => true,
            _ => false,
        },
{
}

/// A job waits for the reply to the unlocking, for what its line waits for, or
/// for nothing but to go on.
pub proof fn law_what_a_job_waits_for(job: JobView, event: EventView)
    ensures
        job::job_expects(job, event) <==> match job.phase {
            PhaseView::Unlocking => event is Reply,
            PhaseView::Line(stage) => line::stage_expects(stage, event),
            _ => event is Done,
        },
{
}

/// A job does for its line what the line asks for. A line that could not be sent
/// puts the job in error, and it goes on to its end. A line that is through moves
/// the job to the next one, which is kept, and the operator sees how far it is.
pub proof fn law_what_a_job_does_for_its_line(
    job: JobView,
    stage: StageView,
    status: StatusView,
    offset: Single,
    event: EventView,
)
    requires
        job.phase == PhaseView::Line(stage),
        job.index < job.lines.len() <= usize::MAX,
    ensures
        ({
            let (next, plan) = job::job_next(job, status, offset, event);
            &&& next.lines == job.lines
            &&& match line::line_next(stage, event) {
                StepView::More(later, asked) => {
                    &&& next.phase == PhaseView::Line(later)
                    &&& next.index == job.index
                    &&& plan == asked
                },
                StepView::Failed => {
                    &&& next.phase is Finishing
                    &&& next.index == job.index
                    &&& plan == seq![
                        EffectView::KeepStatus(StatusView::Error("Send failed"@)),
                        EffectView::Proceed,
                    ]
                },
                StepView::Finished => {
                    &&& next.phase is Barrier
                    &&& next.index == job.index + 1
                    &&& plan == seq![
                        EffectView::KeepNextIndex(next.index),
                        EffectView::ShowProgress {
                            current: job.index as i32,
                            progress: Progress::Part {
                                done: next.index,
                                total: job.lines.len() as usize,
                            },
                        },
                        EffectView::Proceed,
                    ]
                },
            }
        }),
{
}

/// Whether the step `i` of a run finds nothing in its way: the status lets lines
/// pass, the machine takes each line and rests when it is first asked.
pub open spec fn unhindered(inputs: Seq<JobInput>, i: int) -> bool {
    let input = inputs[i];
    &&& input.status is Running || input.status is Idle || input.status is Complete
    &&& i % 6 == 2 ==> input.event is Sums
    &&& i % 6 == 3 ==> (input.event matches EventView::Reply(reply) && reply is Some)
    &&& i % 6 == 4 ==> input.event == EventView::Deadline(false)
    &&& i % 6 == 5 ==> (input.event matches EventView::Reply(reply) && rests(reply))
}

/// A job that nothing is in the way of gets through: six steps for each line move
/// it on by one line, of which one goes out with one question behind it, and
/// behind the last line it ends and is complete.
pub proof fn law_an_unhindered_job_gets_through(
    lines: Seq<Seq<char>>,
    start: usize,
    inputs: Seq<JobInput>,
    k: nat,
)
    requires
        start + k <= lines.len() <= usize::MAX,
        forall|j: int| 0 <= j < lines.len() ==> !text::stands_in("G54"@, #[trigger] lines[j]),
        inputs.len() == 6 * k,
        forall|i: int| 0 <= i < inputs.len() ==> #[trigger] unhindered(inputs, i),
    ensures
        ({
            let first = job::job_start(lines, start);
            let at = job::job_after(first, inputs);
            &&& at.lines == lines
            &&& at.index == start + k
            &&& at.phase is Unlocking || at.phase is Barrier
            &&& all_sent(first, inputs).len() == 1 + 2 * k
            &&& job::lines_sent(first, inputs).len() == k
            &&& start + k == lines.len() ==> forall|status: StatusView, offset: Single, event: EventView|
                status is Running ==> (#[trigger] job::job_next(at, status, offset, event)).1[0]
                    == EffectView::KeepStatus(StatusView::Complete)
        }),
    decreases k,
{
    let first = job::job_start(lines, start);
    if k > 0 {
        let n = (6 * (k - 1)) as int;
        let front = inputs.take(n);
        assert forall|i: int| 0 <= i < front.len() implies #[trigger] unhindered(front, i) by {
            assert(unhindered(inputs, i));
            assert(front[i] == inputs[i]);
        }
        law_an_unhindered_job_gets_through(lines, start, front, (k - 1) as nat);
        assert(!text::stands_in("G54"@, lines[start + k - 1]));
        assert(n % 6 == 0);
        lemma_to_the_line(first, inputs, n);
        lemma_through_the_line(first, inputs, n);
        assert(inputs.take(n + 6) =~= inputs);
    } else {
        reveal_with_fuel(sent_by, 2);
        assert(all_sent(first, inputs).len() == 1);
    }
    let at = job::job_after(first, inputs);
    if start + k == lines.len() {
        assert forall|status: StatusView, offset: Single, event: EventView|
            status is Running implies (#[trigger] job::job_next(at, status, offset, event)).1[0]
            == EffectView::KeepStatus(StatusView::Complete) by {
            law_how_a_job_ends(at, status, offset, event);
        }
    }
}

/// Three steps bring an unhindered job to send its line.
proof fn lemma_to_the_line(first: JobView, inputs: Seq<JobInput>, n: int)
    requires
        0 <= n && n + 6 <= inputs.len(),
        n % 6 == 0,
        forall|i: int| 0 <= i < inputs.len() ==> #[trigger] unhindered(inputs, i),
        ({
            let at = job::job_after(first, inputs.take(n));
            &&& at.phase is Unlocking || at.phase is Barrier
            &&& at.index < at.lines.len()
            &&& !text::stands_in("G54"@, at.lines[at.index as int])
        }),
    ensures
        ({
            let at = job::job_after(first, inputs.take(n));
            let now = job::job_after(first, inputs.take(n + 3));
            &&& now.lines == at.lines && now.index == at.index
            &&& now.phase == PhaseView::Line(StageView::Sending)
            &&& all_sent(first, inputs.take(n + 3)).len() == all_sent(first, inputs.take(n)).len() + 1
            &&& job::lines_sent(first, inputs.take(n + 3)).len() == job::lines_sent(
                first,
                inputs.take(n),
            ).len() + 1
        }),
{
    reveal_with_fuel(sent_by, 2);
    let a = job::job_after(first, inputs.take(n));
    assert(unhindered(inputs, n) && unhindered(inputs, n + 1) && unhindered(inputs, n + 2));
    lemma_one_step(first, inputs, n);
    law_the_status_decides_before_a_line(a, inputs[n].status, inputs[n].offset, inputs[n].event);
    let b = job::job_after(first, inputs.take(n + 1));
    lemma_one_step(first, inputs, n + 1);
    law_the_offset_is_asked_for_at_g54_alone(
        b,
        inputs[n + 1].status,
        inputs[n + 1].offset,
        inputs[n + 1].event,
    );
    let c = job::job_after(first, inputs.take(n + 2));
    assert(job::sends_line(c));
    lemma_one_step(first, inputs, n + 2);
}

/// Three more steps bring it to the next line.
proof fn lemma_through_the_line(first: JobView, inputs: Seq<JobInput>, n: int)
    requires
        0 <= n && n + 6 <= inputs.len(),
        n % 6 == 0,
        forall|i: int| 0 <= i < inputs.len() ==> #[trigger] unhindered(inputs, i),
        ({
            let at = job::job_after(first, inputs.take(n + 3));
            &&& at.phase == PhaseView::Line(StageView::Sending)
            &&& at.index < at.lines.len() <= usize::MAX
        }),
    ensures
        ({
            let at = job::job_after(first, inputs.take(n + 3));
            let now = job::job_after(first, inputs.take(n + 6));
            &&& now.lines == at.lines && now.index == at.index + 1
            &&& now.phase is Barrier
            &&& all_sent(first, inputs.take(n + 6)).len() == all_sent(
                first,
                inputs.take(n + 3),
            ).len() + 1
            &&& job::lines_sent(first, inputs.take(n + 6)).len() == job::lines_sent(
                first,
                inputs.take(n + 3),
            ).len()
        }),
{
    reveal_with_fuel(sent_by, 4);
    assert(unhindered(inputs, n + 3) && unhindered(inputs, n + 4) && unhindered(inputs, n + 5));
    assert((n + 3) % 6 == 3 && (n + 4) % 6 == 4 && (n + 5) % 6 == 5);
    let said = inputs[n + 5].event->Reply_0->0;
    text::law_what_occurs("<Idle"@, said);
    lemma_one_step(first, inputs, n + 3);
    let b = job::job_after(first, inputs.take(n + 4));
    assert(b.phase == PhaseView::Line(StageView::Timing));
    lemma_one_step(first, inputs, n + 4);
    let c = job::job_after(first, inputs.take(n + 5));
    assert(c.phase == PhaseView::Line(StageView::Asking));
    lemma_one_step(first, inputs, n + 5);
}

/// One more step of a run.
proof fn lemma_one_step(first: JobView, inputs: Seq<JobInput>, n: int)
    requires
        0 <= n < inputs.len(),
    ensures
        ({
            let before = job::job_after(first, inputs.take(n));
            let input = inputs[n];
            let (next, plan) = job::job_next(before, input.status, input.offset, input.event);
            &&& job::job_after(first, inputs.take(n + 1)) == next
            &&& all_sent(first, inputs.take(n + 1)) == all_sent(first, inputs.take(n)) + sent_by(plan)
            &&& job::lines_sent(first, inputs.take(n + 1)).len() == job::lines_sent(
                first,
                inputs.take(n),
            ).len() + (if job::sends_line(before) {
                1int
            } else {
                0
            })
        }),
{
    assert(inputs.take(n + 1).drop_last() =~= inputs.take(n));
    assert(inputs.take(n + 1).last() == inputs[n]);
}

/// A single line is begun with a running status, which the operator sees, and
/// with the offset added to the numbers of the words that it shifts.
pub proof fn law_how_a_single_line_begins(
    text: Seq<char>,
    index: usize,
    total: usize,
    offset: Single,
)
    ensures
        ({
            let (task, plan) = next_line::next_line_start(text, index, total, offset);
            let spans = offset::shifted_spans(text, offset);
            &&& task.index == index && task.total == total
            &&& task.phase == NextLinePhaseView::Line(StageView::Adding { line: text, spans })
            &&& plan == seq![
                EffectView::KeepStatus(StatusView::Running),
                EffectView::ShowStatus("RUNNING"@),
                EffectView::AddOffset { numbers: offset::numbers_of(text, spans), offset },
            ]
        }),
{
    let plan = next_line::next_line_start(text, index, total, offset).1;
    let spans = offset::shifted_spans(text, offset);
    assert(plan =~= seq![
        EffectView::KeepStatus(StatusView::Running),
        EffectView::ShowStatus("RUNNING"@),
        EffectView::AddOffset { numbers: offset::numbers_of(text, spans), offset },
    ]);
}

/// A single line is sent as a line of a job is. One that could not be sent puts
/// the controller in error and stays the next line. One that is through is no
/// longer the next line; the controller is idle again, or complete where it was
/// the last line of the program.
pub proof fn law_what_is_done_for_a_single_line(
    task: NextLineView,
    stage: StageView,
    event: EventView,
)
    requires
        task.phase == NextLinePhaseView::Line(stage),
        task.index < task.total,
    ensures
        ({
            let (next, plan) = next_line::next_line_next(task, event);
            &&& next.index == task.index && next.total == task.total
            &&& match line::line_next(stage, event) {
                StepView::More(later, asked) => next.phase == NextLinePhaseView::Line(later) && plan
                    == asked,
                StepView::Failed => next.phase is Ended && plan == seq![
                    EffectView::KeepStatus(StatusView::Error("Send failed"@)),
                    EffectView::ShowStatus("ERROR: "@ + "Send failed"@),
                    EffectView::End,
                ],
                StepView::Finished => next.phase is Ended && plan == seq![
                    EffectView::KeepNextIndex((task.index + 1) as usize),
                    EffectView::ShowProgress {
                        current: task.index as i32,
                        progress: Progress::Part {
                            done: (task.index + 1) as usize,
                            total: task.total,
                        },
                    },
                    EffectView::KeepStatus(
                        if task.index + 1 == task.total {
                            StatusView::Complete
                        } else {
                            StatusView::Idle
                        },
                    ),
                    EffectView::ShowStatus(
                        if task.index + 1 == task.total {
                            "COMPLETE"@
                        } else {
                            "IDLE"@
                        },
                    ),
                    EffectView::End,
                ],
            }
        }),
{
    let plan = next_line::next_line_next(task, event).1;
    match line::line_next(stage, event) {
        StepView::More(_, _) => {},
        StepView::Failed => {
            assert(plan =~= seq![
                EffectView::KeepStatus(StatusView::Error("Send failed"@)),
                EffectView::ShowStatus("ERROR: "@ + "Send failed"@),
                EffectView::End,
            ]);
        },
        StepView::Finished => {
            let last = task.index + 1 == task.total;
            assert(plan =~= seq![
                EffectView::KeepNextIndex((task.index + 1) as usize),
                EffectView::ShowProgress {
                    current: task.index as i32,
                    progress: Progress::Part { done: (task.index + 1) as usize, total: task.total },
                },
                EffectView::KeepStatus(
                    if last {
                        StatusView::Complete
                    } else {
                        StatusView::Idle
                    },
                ),
                EffectView::ShowStatus(
                    if last {
                        "COMPLETE"@
                    } else {
                        "IDLE"@
                    },
                ),
                EffectView::End,
            ]);
        },
    }
}

/// The sending of a single line waits for what the line waits for, and when it is
/// over it stays over.
pub proof fn law_what_a_single_line_waits_for(task: NextLineView, event: EventView)
    ensures
        next_line::next_line_expects(task, event) <==> match task.phase {
            NextLinePhaseView::Line(stage) => line::stage_expects(stage, event),
            NextLinePhaseView::Ended => event is Done,
        },
        task.phase is Ended ==> next_line::next_line_next(task, event) == (
            task,
            seq![EffectView::End],
        ),
{
}

/// What a job does when it starts: it sends the unlocking, and is before the line
/// that it is given.
pub proof fn law_what_starting_a_job_does(
    lines: Vec<String>,
    index: usize,
    job: JobTask,
    plan: Vec<Effect>,
)
    requires
        call_ensures(JobTask::start, (lines, index), (job, plan)),
    ensures
        job@.lines == text::texts(lines@),
        job@.index == index,
        job@.phase is Unlocking,
        plan@.len() == 1,
        plan@[0]@ == EffectView::Send("$X"@),
{
    assert(effect::effects(plan@).len() == plan@.len());
    assert(effect::effects(plan@)[0] == plan@[0]@);
}

/// A step of a job sends its line once, a question, or nothing.
pub proof fn law_what_a_step_of_a_job_sends(
    before: JobTask,
    status: JobStatus,
    offset: Single,
    event: Event,
    after: JobTask,
    plan: Vec<Effect>,
)
    requires
        job::job_expects(before@, event@),
        call_ensures(JobTask::step, (before, &status, offset, event), (after, plan)),
    ensures
        ({
            let sent = sent_by(effect::effects(plan@));
            match before@.phase {
                PhaseView::Line(StageView::Adding { line, spans }) => sent == seq![
                    offset::replaced(line, spans, event@->Sums_0),
                ],
                PhaseView::Line(StageView::Timing) => sent == (if event@ == EventView::Deadline(
                    false,
                ) {
                    seq!["?"@]
                } else {
                    Seq::empty()
                }),
                _ => sent.len() == 0,
            }
        }),
{
    reveal_with_fuel(sent_by, 6);
    lemma_sent_at_a_step(before@, status@, offset, event@);
    let p = effect::effects(plan@);
    match before@.phase {
        PhaseView::Line(StageView::Timing) => {
            if event@ == EventView::Deadline(false) {
                assert(sent_by(p) =~= seq!["?"@]);
            } else {
                assert(sent_by(p) =~= Seq::empty());
            }
        },
        _ => {},
    }
}

/// A step of sending a line sends the line once, a question, or nothing.
pub proof fn law_what_a_step_of_a_line_sends(
    stage: LineStage,
    event: Event,
    after: LineStage,
    plan: Vec<Effect>,
)
    requires
        line::stage_expects(stage@, event@),
        call_ensures(LineStage::step, (stage, event), LineStep::More(after, plan)),
    ensures
        ({
            let sent = sent_by(effect::effects(plan@));
            match stage@ {
                StageView::Adding { line, spans } => sent == seq![
                    offset::replaced(line, spans, event@->Sums_0),
                ] && after@ is Sending,
                StageView::Timing => sent == seq!["?"@] && after@ is Asking,
                _ => sent.len() == 0 && !(after@ is Adding) && !(after@ is Sending),
            }
        }),
{
    reveal_with_fuel(sent_by, 6);
    let p = effect::effects(plan@);
    match stage@ {
        StageView::Adding { line, spans } => {
            assert(sent_by(p) =~= seq![offset::replaced(line, spans, event@->Sums_0)]);
        },
        StageView::Timing => {
            assert(sent_by(p) =~= seq!["?"@]);
        },
        _ => {},
    }
}

/// A step of a job, of a single line and of sending a line is the next step of
/// what it is about.
pub proof fn law_what_steps_lead_to(
    job: JobTask,
    single: NextLineTask,
    status: JobStatus,
    offset: Single,
    event: Event,
    after_job: (JobTask, Vec<Effect>),
    after_single: (NextLineTask, Vec<Effect>),
)
    requires
        call_ensures(JobTask::step, (job, &status, offset, event), after_job),
        call_ensures(NextLineTask::step, (single, event), after_single),
    ensures
        after_job.0@ == job::job_next(job@, status@, offset, event@).0,
        effect::effects(after_job.1@) == job::job_next(job@, status@, offset, event@).1,
        after_single.0@ == next_line::next_line_next(single@, event@).0,
        effect::effects(after_single.1@) == next_line::next_line_next(single@, event@).1,
{
}

/// A single line that is started is the line that it is given, at its place in the
/// program, and runs.
pub proof fn law_what_starting_a_single_line_does(
    text: &str,
    index: usize,
    total: usize,
    offset: Single,
    task: NextLineTask,
    plan: Vec<Effect>,
)
    requires
        call_ensures(NextLineTask::start, (text, index, total, offset), (task, plan)),
    ensures
        task@.index == index,
        task@.total == total,
        task@.phase == NextLinePhaseView::Line(
            StageView::Adding { line: text@, spans: offset::shifted_spans(text@, offset) },
        ),
        plan@.len() == 3,
        plan@[0]@ == EffectView::KeepStatus(StatusView::Running),
        plan@[1]@ == EffectView::ShowStatus("RUNNING"@),
        plan@[2]@ == (EffectView::AddOffset {
            numbers: offset::numbers_of(text@, offset::shifted_spans(text@, offset)),
            offset,
        }),
{
    law_how_a_single_line_begins(text@, index, total, offset);
    assert(effect::effects(plan@).len() == plan@.len());
    assert(effect::effects(plan@)[0] == plan@[0]@);
    assert(effect::effects(plan@)[1] == plan@[1]@);
    assert(effect::effects(plan@)[2] == plan@[2]@);
}

/// Everything that a single line sends to the machine through some steps, and what
/// it has come to.
pub open spec fn single_after(first: NextLineView, events: Seq<EventView>) -> (
    NextLineView,
    Seq<Seq<char>>,
)
    decreases events.len(),
{
    if events.len() == 0 {
        (first, Seq::empty())
    } else {
        let (task, sent) = single_after(first, events.drop_last());
        let (next, plan) = next_line::next_line_next(task, events.last());
        (next, sent + sent_by(plan))
    }
}

/// A single line goes out once, with the sums of its own words in it, and nothing
/// but questions for the state goes out behind it.
pub proof fn law_a_single_line_goes_out_once(
    text: Seq<char>,
    index: usize,
    total: usize,
    offset: Single,
    events: Seq<EventView>,
)
    requires
        index < total,
        events.len() > 0,
        events[0] is Sums,
    ensures
        ({
            let first = next_line::next_line_start(text, index, total, offset).0;
            let sent = single_after(first, events).1;
            &&& sent.len() > 0
            &&& sent[0] == offset::replaced(
                text,
                offset::shifted_spans(text, offset),
                events[0]->Sums_0,
            )
            &&& forall|i: int| 0 < i < sent.len() ==> #[trigger] sent[i] == "?"@
        }),
{
    lemma_single_begun(text, index, total, offset, events);
}

proof fn lemma_single_begun(
    text: Seq<char>,
    index: usize,
    total: usize,
    offset: Single,
    events: Seq<EventView>,
)
    requires
        events.len() > 0,
        events[0] is Sums,
    ensures
        ({
            let first = next_line::next_line_start(text, index, total, offset).0;
            let (task, sent) = single_after(first, events);
            &&& task.phase matches NextLinePhaseView::Line(stage) ==> !(stage is Adding)
            &&& sent.len() > 0
            &&& sent[0] == offset::replaced(
                text,
                offset::shifted_spans(text, offset),
                events[0]->Sums_0,
            )
            &&& forall|i: int| 0 < i < sent.len() ==> #[trigger] sent[i] == "?"@
        }),
    decreases events.len(),
{
    reveal_with_fuel(sent_by, 6);
    let first = next_line::next_line_start(text, index, total, offset).0;
    let front = events.drop_last();
    let (task, sent) = single_after(first, front);
    let plan = next_line::next_line_next(task, events.last()).1;
    if events.len() == 1 {
        assert(front =~= Seq::empty());
        assert(sent_by(plan) =~= seq![
            offset::replaced(text, offset::shifted_spans(text, offset), events[0]->Sums_0),
        ]);
    } else {
        assert(front[0] == events[0]);
        lemma_single_begun(text, index, total, offset, front);
        lemma_asks_or_is_silent(task, events.last());
    }
}

/// Behind its line a single line sends nothing but questions.
proof fn lemma_asks_or_is_silent(task: NextLineView, event: EventView)
    requires
        task.phase matches NextLinePhaseView::Line(stage) ==> !(stage is Adding),
    ensures
        ({
            let (next, plan) = next_line::next_line_next(task, event);
            &&& sent_by(plan) == Seq::<Seq<char>>::empty() || sent_by(plan) == seq!["?"@]
            &&& next.phase matches NextLinePhaseView::Line(stage) ==> !(stage is Adding)
        }),
{
    reveal_with_fuel(sent_by, 6);
    let plan = next_line::next_line_next(task, event).1;
    match task.phase {
        NextLinePhaseView::Line(stage) => {
            match line::line_next(stage, event) {
                StepView::More(_, _) => {
                    if stage is Timing {
                        assert(sent_by(plan) =~= seq!["?"@]);
                    } else {
                        assert(sent_by(plan) =~= Seq::empty());
                    }
                },
                _ => {
                    assert(sent_by(plan) =~= Seq::empty());
                },
            }
        },
        _ => {
            assert(sent_by(plan) =~= Seq::empty());
        },
    }
}

} // verus!
