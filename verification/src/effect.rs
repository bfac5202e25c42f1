//! What is to be done, and what came of it.
//!
//! A decision is a list of effects, to be carried out in order. The last of
//! them is answered by an event, with which the next decision is made.
use crate::single::Single;
use crate::status::{JobStatus, StatusView};
use crate::text;
use vstd::prelude::*;

verus! {

/// What stands for the current line where there is none.
pub const NO_LINE: i32 = -1;

/// How much of a program is done.
#[derive(Clone, Copy, Debug, PartialEq, Eq, Structural)]
pub enum Progress {
    /// Nothing of it.
    Nothing,
    /// `done` of `total` lines.
    Part { done: usize, total: usize },
    /// All of it.
    Everything,
}

/// Something to be done.
#[derive(Debug)]
pub enum Effect {
    /// Make this the status of the job.
    KeepStatus(JobStatus),
    /// Make these the lines of the program.
    KeepLines(Vec<String>),
    /// Make this the line to be sent next.
    KeepNextIndex(usize),
    /// Make this the Z offset.
    KeepOffset(Single),
    /// Show a status text to the operator.
    ShowStatus(String),
    /// Show a program and where it was read from.
    ShowProgram { lines: Vec<String>, path: String },
    /// Show the current line, or that there is none, and the progress.
    ShowProgress { current: i32, progress: Progress },
    /// Show the request for a Z offset, or take it away.
    ShowOffsetRequest(bool),
    /// Send a line to the machine and wait for the reply, if one comes.
    Send(String),
    /// Send a line to the machine and go on at once.
    SendAside(String),
    /// Read a file.
    ReadFile(String),
    /// Add the offset to each of the numbers.
    AddOffset { numbers: Vec<String>, offset: Single },
    /// End the job that is under way, if there is one.
    AbortJob,
    /// Begin a job on these lines, at the line to be sent next.
    LaunchJob(Vec<String>),
    /// Send one line of a program of `total` lines.
    SendOneLine { line: String, index: usize, total: usize },
    /// Let a job that waits for the next line go on.
    NotifyNextLine,
    /// Let a job that waits for the Z offset go on.
    NotifyOffset,
    /// Wait until told to go on with the next line.
    AwaitNextLine,
    /// Wait until told to go on with the Z offset.
    AwaitOffset,
    /// Wait for so many milliseconds.
    Sleep(u64),
    /// Set a deadline so many seconds from now.
    SetDeadline(u64),
    /// See whether the deadline has passed.
    CheckDeadline,
    /// Nothing but to come back.
    Proceed,
    /// Nothing more is to be done.
    End,
}

/// An effect with its texts as characters.
#[verifier::ext_equal]
pub enum EffectView {
    KeepStatus(StatusView),
    KeepLines(Seq<Seq<char>>),
    KeepNextIndex(usize),
    KeepOffset(Single),
    ShowStatus(Seq<char>),
    ShowProgram { lines: Seq<Seq<char>>, path: Seq<char> },
    ShowProgress { current: i32, progress: Progress },
    ShowOffsetRequest(bool),
    Send(Seq<char>),
    SendAside(Seq<char>),
    ReadFile(Seq<char>),
    AddOffset { numbers: Seq<Seq<char>>, offset: Single },
    AbortJob,
    LaunchJob(Seq<Seq<char>>),
    SendOneLine { line: Seq<char>, index: usize, total: usize },
    NotifyNextLine,
    NotifyOffset,
    AwaitNextLine,
    AwaitOffset,
    Sleep(u64),
    SetDeadline(u64),
    CheckDeadline,
    Proceed,
    End,
}

impl View for Effect {
    type V = EffectView;

    open spec fn view(&self) -> EffectView {
        match self {
            Effect::KeepStatus(status) => EffectView::KeepStatus(status@),
            Effect::KeepLines(lines) => EffectView::KeepLines(text::texts(lines@)),
            Effect::KeepNextIndex(index) => EffectView::KeepNextIndex(*index),
            Effect::KeepOffset(offset) => EffectView::KeepOffset(*offset),
            Effect::ShowStatus(s) => EffectView::ShowStatus(s@),
            Effect::ShowProgram { lines, path } => EffectView::ShowProgram {
                lines: text::texts(lines@),
                path: path@,
            },
            Effect::ShowProgress { current, progress } => EffectView::ShowProgress {
                current: *current,
                progress: *progress,
            },
            Effect::ShowOffsetRequest(shown) => EffectView::ShowOffsetRequest(*shown),
            Effect::Send(line) => EffectView::Send(line@),
            Effect::SendAside(line) => EffectView::SendAside(line@),
            Effect::ReadFile(path) => EffectView::ReadFile(path@),
            Effect::AddOffset { numbers, offset } => EffectView::AddOffset {
                numbers: text::texts(numbers@),
                offset: *offset,
            },
            Effect::AbortJob => EffectView::AbortJob,
            Effect::LaunchJob(lines) => EffectView::LaunchJob(text::texts(lines@)),
            Effect::SendOneLine { line, index, total } => EffectView::SendOneLine {
                line: line@,
                index: *index,
                total: *total,
            },
            Effect::NotifyNextLine => EffectView::NotifyNextLine,
            Effect::NotifyOffset => EffectView::NotifyOffset,
            Effect::AwaitNextLine => EffectView::AwaitNextLine,
            Effect::AwaitOffset => EffectView::AwaitOffset,
            Effect::Sleep(milliseconds) => EffectView::Sleep(*milliseconds),
            Effect::SetDeadline(seconds) => EffectView::SetDeadline(*seconds),
            Effect::CheckDeadline => EffectView::CheckDeadline,
            Effect::Proceed => EffectView::Proceed,
            Effect::End => EffectView::End,
        }
    }
}

/// A list of effects with their texts as characters.
pub open spec fn effects(plan: Seq<Effect>) -> Seq<EffectView> {
    Seq::new(plan.len(), |i: int| plan[i]@)
}

/// What came of the last effect of a list.
#[derive(Debug)]
pub enum Event {
    /// It is done.
    Done,
    /// The machine's reply to what was sent, if one came.
    Reply(Option<String>),
    /// The sums of the numbers and the offset.
    Sums(Vec<String>),
    /// Whether the deadline has passed.
    Deadline(bool),
}

/// An event with its texts as characters.
pub enum EventView {
    Done,
    Reply(Option<Seq<char>>),
    Sums(Seq<Seq<char>>),
    Deadline(bool),
}

/// A reply as characters.
pub open spec fn reply_text(reply: Option<String>) -> Option<Seq<char>> {
    match reply {
        Some(reply) => Some(reply@),
        None => None,
    }
}

impl View for Event {
    type V = EventView;

    open spec fn view(&self) -> EventView {
        match self {
            Event::Done => EventView::Done,
            Event::Reply(reply) => EventView::Reply(reply_text(*reply)),
            Event::Sums(sums) => EventView::Sums(text::texts(sums@)),
            Event::Deadline(passed) => EventView::Deadline(*passed),
        }
    }
}

/// The effects of a new status: it is kept, and the operator sees it.
pub open spec fn update_status(status: StatusView) -> Seq<EffectView> {
    seq![EffectView::KeepStatus(status), EffectView::ShowStatus(crate::status::status_text(status))]
}

/// A list of one effect.
pub fn one(effect: Effect) -> (r: Vec<Effect>)
    ensures
        effects(r@) == seq![effect@],
{
    let mut r: Vec<Effect> = Vec::new();
    r.push(effect);
    assert(effects(r@) =~= seq![effect@]);
    r
}

/// A list of effects with one more.
pub fn and(plan: Vec<Effect>, effect: Effect) -> (r: Vec<Effect>)
    ensures
        effects(r@) == effects(plan@).push(effect@),
{
    let mut r = plan;
    r.push(effect);
    assert(effects(r@) =~= effects(plan@).push(effect@));
    r
}

/// A list of effects with those of a new status.
pub fn and_status(plan: Vec<Effect>, status: JobStatus) -> (r: Vec<Effect>)
    ensures
        effects(r@) == effects(plan@) + update_status(status@),
{
    let shown = status.to_slint_string();
    let r = and(and(plan, Effect::KeepStatus(status)), Effect::ShowStatus(shown));
    assert(effects(r@) =~= effects(plan@) + update_status(status@));
    r
}

/// An effect says what it is, with each of its texts and numbers.
pub proof fn law_effects_say_what_they_are(e: Effect)
    ensures
        match e {
            Effect::KeepStatus(status) => e@ == EffectView::KeepStatus(status@),
            Effect::KeepLines(lines) => e@ == EffectView::KeepLines(text::texts(lines@)),
            Effect::KeepNextIndex(index) => e@ == EffectView::KeepNextIndex(index),
            Effect::KeepOffset(offset) => e@ == EffectView::KeepOffset(offset),
            Effect::ShowStatus(s) => e@ == EffectView::ShowStatus(s@),
            Effect::ShowProgram { lines, path } => e@ == (EffectView::ShowProgram {
                lines: text::texts(lines@),
                path: path@,
            }),
            Effect::ShowProgress { current, progress } => e@ == (EffectView::ShowProgress {
                current,
                progress,
            }),
            Effect::ShowOffsetRequest(shown) => e@ == EffectView::ShowOffsetRequest(shown),
            Effect::Send(line) => e@ == EffectView::Send(line@),
            Effect::SendAside(line) => e@ == EffectView::SendAside(line@),
            Effect::ReadFile(path) => e@ == EffectView::ReadFile(path@),
            Effect::AddOffset { numbers, offset } => e@ == (EffectView::AddOffset {
                numbers: text::texts(numbers@),
                offset,
            }),
            Effect::AbortJob => e@ == EffectView::AbortJob,
            Effect::LaunchJob(lines) => e@ == EffectView::LaunchJob(text::texts(lines@)),
            Effect::SendOneLine { line, index, total } => e@ == (EffectView::SendOneLine {
                line: line@,
                index,
                total,
            }),
            Effect::NotifyNextLine => e@ == EffectView::NotifyNextLine,
            Effect::NotifyOffset => e@ == EffectView::NotifyOffset,
            Effect::AwaitNextLine => e@ == EffectView::AwaitNextLine,
            Effect::AwaitOffset => e@ == EffectView::AwaitOffset,
            Effect::Sleep(milliseconds) => e@ == EffectView::Sleep(milliseconds),
            Effect::SetDeadline(seconds) => e@ == EffectView::SetDeadline(seconds),
            Effect::CheckDeadline => e@ == EffectView::CheckDeadline,
            Effect::Proceed => e@ == EffectView::Proceed,
            Effect::End => e@ == EffectView::End,
        },
{
}

/// An event says what it is: a reply that came, even an empty one, is a reply.
pub proof fn law_events_say_what_they_are(e: Event)
    ensures
        match e {
            Event::Done => e@ == EventView::Done,
            Event::Reply(Some(reply)) => e@ == EventView::Reply(Some(reply@)),
            Event::Reply(None) => e@ == EventView::Reply(None),
            Event::Sums(sums) => e@ == EventView::Sums(text::texts(sums@)),
            Event::Deadline(passed) => e@ == EventView::Deadline(passed),
        },
{
}

/// A list has as many effects, and they are those that it holds, in their order.
pub proof fn law_a_list_is_its_effects(plan: Seq<Effect>)
    ensures
        effects(plan).len() == plan.len(),
        forall|i: int| 0 <= i < plan.len() ==> #[trigger] effects(plan)[i] == plan[i]@,
{
}

} // verus!
