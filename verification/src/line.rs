//! Sending one line of a program: the offset is added, the line goes out, and
//! the machine is asked until it rests or half a minute is over.
use crate::effect;
use crate::effect::{Effect, EffectView, Event, EventView};
use crate::offset;
use crate::offset::OffsetPlan;
use crate::report;
use crate::single::Single;
use crate::text;
use vstd::prelude::*;

verus! {

/// For how many seconds the machine is given time to come to rest.
pub const REST_SECONDS: u64 = 30;

/// How many milliseconds lie between two questions whether it rests.
pub const ASK_MILLISECONDS: u64 = 80;

/// How far the sending of a line has come.
#[derive(Debug)]
pub enum LineStage {
    /// The offset is being added.
    Adding(OffsetPlan),
    /// The line is being sent.
    Sending,
    /// The clock is being looked at.
    Timing,
    /// The machine is being asked for its state.
    Asking,
    /// The next question is not yet due.
    Resting,
}

/// A stage with its line as characters.
pub enum StageView {
    Adding { line: Seq<char>, spans: Seq<(usize, usize)> },
    Sending,
    Timing,
    Asking,
    Resting,
}

impl View for LineStage {
    type V = StageView;

    open spec fn view(&self) -> StageView {
        match self {
            LineStage::Adding(plan) => StageView::Adding { line: plan.line(), spans: plan.spans() },
            LineStage::Sending => StageView::Sending,
            LineStage::Timing => StageView::Timing,
            LineStage::Asking => StageView::Asking,
            LineStage::Resting => StageView::Resting,
        }
    }
}

/// What comes next in sending a line.
#[derive(Debug)]
pub enum LineStep {
    /// The next stage, and what is to be done for it.
    More(LineStage, Vec<Effect>),
    /// The line could not be sent.
    Failed,
    /// The line is sent and has been given its time.
    Finished,
}

/// A step with its texts as characters.
pub enum StepView {
    More(StageView, Seq<EffectView>),
    Failed,
    Finished,
}

impl View for LineStep {
    type V = StepView;

    open spec fn view(&self) -> StepView {
        match self {
            LineStep::More(stage, plan) => StepView::More(stage@, effect::effects(plan@)),
            LineStep::Failed => StepView::Failed,
            LineStep::Finished => StepView::Finished,
        }
    }
}

/// The first stage in sending `line`.
pub open spec fn first_stage(line: Seq<char>, offset: Single) -> StageView {
    StageView::Adding { line, spans: offset::shifted_spans(line, offset) }
}

/// What is to be done for the first stage.
pub open spec fn first_effect(line: Seq<char>, offset: Single) -> EffectView {
    EffectView::AddOffset {
        numbers: offset::numbers_of(line, offset::shifted_spans(line, offset)),
        offset,
    }
}

/// Whether `event` answers what the stage waits for.
pub open spec fn stage_expects(stage: StageView, event: EventView) -> bool {
    match stage {
        StageView::Adding { line, spans } => event matches EventView::Sums(sums) && sums.len()
            == spans.len(),
        StageView::Sending => event is Reply,
        StageView::Timing => event is Deadline,
        StageView::Asking => event is Reply,
        StageView::Resting => event is Done,
    }
}

/// What follows a stage.
pub open spec fn line_next(stage: StageView, event: EventView) -> StepView {
    match stage {
        StageView::Adding { line, spans } => StepView::More(
            StageView::Sending,
            seq![EffectView::Send(offset::replaced(line, spans, event->Sums_0))],
        ),
        StageView::Sending => if event->Reply_0 is Some {
            StepView::More(
                StageView::Timing,
                seq![EffectView::SetDeadline(REST_SECONDS), EffectView::CheckDeadline],
            )
        } else {
            StepView::Failed
        },
        StageView::Timing => if event->Deadline_0 {
            StepView::Finished
        } else {
            StepView::More(StageView::Asking, seq![EffectView::Send("?"@)])
        },
        StageView::Asking => if event->Reply_0 matches Some(reply) && text::occurs(
            "<Idle"@,
            reply,
        ) {
            StepView::Finished
        } else {
            StepView::More(StageView::Resting, seq![EffectView::Sleep(ASK_MILLISECONDS)])
        },
        StageView::Resting => StepView::More(
            StageView::Timing,
            seq![EffectView::CheckDeadline],
        ),
    }
}

/// Whether the words to be shifted are words of the line.
pub open spec fn stage_fits(stage: StageView) -> bool {
    stage matches StageView::Adding { line, spans } ==> offset::z_words_fit(line, spans)
}

impl LineStage {
    /// The words to be shifted are words of the line.
    pub open spec fn well_formed(self) -> bool {
        stage_fits(self@)
    }

    /// The first stage in sending `line`, and what is to be done for it.
    pub fn begin(line: &str, offset: Single) -> (r: (LineStage, Effect))
        ensures
            r.0.well_formed(),
            r.0@ == first_stage(line@, offset),
            r.1@ == first_effect(line@, offset),
            offset::known_in_ascii(line@, offset),
    {
        let plan = offset::apply_offset_to_line(line, offset);
        let numbers = plan.numbers();
        (LineStage::Adding(plan), Effect::AddOffset { numbers, offset })
    }

    /// Whether `event` answers what this stage waits for.
    pub fn expects(&self, event: &Event) -> (r: bool)
        requires
            self.well_formed(),
        ensures
            r == stage_expects(self@, event@),
    {
        match (self, event) {
            (LineStage::Adding(plan), Event::Sums(sums)) => {
                let numbers = plan.numbers();
                assert(text::texts(numbers@).len() == numbers.len());
                assert(text::texts(sums@).len() == sums.len());
                numbers.len() == sums.len()
            },
            (LineStage::Sending, Event::Reply(_)) => true,
            (LineStage::Timing, Event::Deadline(_)) => true,
            (LineStage::Asking, Event::Reply(_)) => true,
            (LineStage::Resting, Event::Done) => true,
            _ => false,
        }
    }

    /// What follows this stage.
    pub fn step(self, event: Event) -> (r: LineStep)
        requires
            self.well_formed(),
            stage_expects(self@, event@),
        ensures
            r@ == line_next(self@, event@),
            r matches LineStep::More(stage, _) ==> stage.well_formed(),
    {
        match (self, event) {
            (LineStage::Adding(plan), Event::Sums(sums)) => {
                assert(text::texts(sums@).len() == sums.len());
                let line = plan.finish(&sums);
                LineStep::More(LineStage::Sending, effect::one(Effect::Send(line)))
            },
            (LineStage::Sending, Event::Reply(Some(_))) => {
                let plan = effect::and(
                    effect::one(Effect::SetDeadline(REST_SECONDS)),
                    Effect::CheckDeadline,
                );
                assert(effect::effects(plan@) =~= seq![
                    EffectView::SetDeadline(REST_SECONDS),
                    EffectView::CheckDeadline,
                ]);
                LineStep::More(LineStage::Timing, plan)
            },
            (LineStage::Timing, Event::Deadline(false)) => LineStep::More(
                LineStage::Asking,
                effect::one(Effect::Send("?".to_owned())),
            ),
            (LineStage::Timing, Event::Deadline(true)) => LineStep::Finished,
            (LineStage::Asking, Event::Reply(reply)) => {
                let resting = match &reply {
                    Some(reply) => report::is_idle(reply.as_str()),
                    None => false,
                };
                if resting {
                    LineStep::Finished
                } else {
                    LineStep::More(
                        LineStage::Resting,
                        effect::one(Effect::Sleep(ASK_MILLISECONDS)),
                    )
                }
            },
            (LineStage::Resting, Event::Done) => LineStep::More(
                LineStage::Timing,
                effect::one(Effect::CheckDeadline),
            ),
            _ => LineStep::Failed,
        }
    }
}

/// A line that went out is done with only when the machine rests or its time is
/// over, and it fails only where the machine gives no answer to it.
pub proof fn law_a_line_is_given_its_time(stage: StageView, event: EventView)
    requires
        stage_expects(stage, event),
    ensures
        line_next(stage, event) is Finished <==> {
            ||| stage is Timing && event == EventView::Deadline(true)
            ||| stage is Asking && (event->Reply_0 matches Some(reply) && text::occurs(
                "<Idle"@,
                reply,
            ))
        },
        line_next(stage, event) is Failed <==> stage is Sending && event == EventView::Reply(None),
{
}

/// A stage is what it says, with its line and the words to be shifted, and a step
/// with the next stage and what is to be done for it.
pub proof fn law_stages_and_steps_say_what_they_are(stage: LineStage, plan: Vec<Effect>)
    ensures
        match stage {
            LineStage::Adding(words) => stage@ == (StageView::Adding {
                line: words.line(),
                spans: words.spans(),
            }),
            LineStage::Sending => stage@ is Sending,
            LineStage::Timing => stage@ is Timing,
            LineStage::Asking => stage@ is Asking,
            LineStage::Resting => stage@ is Resting,
        },
        LineStep::More(stage, plan)@ == StepView::More(stage@, effect::effects(plan@)),
        LineStep::Failed@ is Failed,
        LineStep::Finished@ is Finished,
{
}

} // verus!
