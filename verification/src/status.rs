//! The status of a job and the commands of the operator.
use crate::single::Single;
use vstd::prelude::*;
use vstd::std_specs::cmp::PartialEqSpec;

verus! {

/// The status of a job.
#[derive(Debug)]
pub enum JobStatus {
    Idle,
    Running,
    Paused,
    Stopping,
    Complete,
    Error(String),
    WaitingForZOffset,
}

/// A job status with its message as characters.
pub enum StatusView {
    Idle,
    Running,
    Paused,
    Stopping,
    Complete,
    Error(Seq<char>),
    WaitingForZOffset,
}

impl View for JobStatus {
    type V = StatusView;

    open spec fn view(&self) -> StatusView {
        match self {
            JobStatus::Idle => StatusView::Idle,
            JobStatus::Running => StatusView::Running,
            JobStatus::Paused => StatusView::Paused,
            JobStatus::Stopping => StatusView::Stopping,
            JobStatus::Complete => StatusView::Complete,
            JobStatus::Error(message) => StatusView::Error(message@),
            JobStatus::WaitingForZOffset => StatusView::WaitingForZOffset,
        }
    }
}

impl PartialEq for JobStatus {
    fn eq(&self, other: &JobStatus) -> (r: bool) {
        match (self, other) {
            (JobStatus::Idle, JobStatus::Idle) => true,
            (JobStatus::Running, JobStatus::Running) => true,
            (JobStatus::Paused, JobStatus::Paused) => true,
            (JobStatus::Stopping, JobStatus::Stopping) => true,
            (JobStatus::Complete, JobStatus::Complete) => true,
            (JobStatus::Error(a), JobStatus::Error(b)) => *a == *b,
            (JobStatus::WaitingForZOffset, JobStatus::WaitingForZOffset) => true,
            _ => false,
        }
    }
}

impl vstd::std_specs::cmp::PartialEqSpecImpl for JobStatus {
    open spec fn obeys_eq_spec() -> bool {
        true
    }

    open spec fn eq_spec(&self, other: &JobStatus) -> bool {
        self@ == other@
    }
}

/// The text that the operator sees of a status.
pub open spec fn status_text(status: StatusView) -> Seq<char> {
    match status {
        StatusView::Idle => "IDLE"@,
        StatusView::Running => "RUNNING"@,
        StatusView::Paused => "PAUSED"@,
        StatusView::Stopping => "STOPPING"@,
        StatusView::Complete => "COMPLETE"@,
        StatusView::Error(message) => "ERROR: "@ + message,
        StatusView::WaitingForZOffset => "WAITING FOR Z OFFSET"@,
    }
}

impl JobStatus {
    /// The text that the operator sees of this status.
    pub fn to_slint_string(&self) -> (r: String)
        ensures
            r@ == status_text(self@),
    {
        match self {
            JobStatus::Idle => "IDLE".to_owned(),
            JobStatus::Running => "RUNNING".to_owned(),
            JobStatus::Paused => "PAUSED".to_owned(),
            JobStatus::Stopping => "STOPPING".to_owned(),
            JobStatus::Complete => "COMPLETE".to_owned(),
            JobStatus::Error(message) => "ERROR: ".to_owned().concat(message.as_str()),
            JobStatus::WaitingForZOffset => "WAITING FOR Z OFFSET".to_owned(),
        }
    }
}

impl Clone for JobStatus {
    fn clone(&self) -> (r: JobStatus)
        ensures
            r@ == self@,
    {
        match self {
            JobStatus::Idle => JobStatus::Idle,
            JobStatus::Running => JobStatus::Running,
            JobStatus::Paused => JobStatus::Paused,
            JobStatus::Stopping => JobStatus::Stopping,
            JobStatus::Complete => JobStatus::Complete,
            JobStatus::Error(message) => JobStatus::Error(message.clone()),
            JobStatus::WaitingForZOffset => JobStatus::WaitingForZOffset,
        }
    }
}

/// What the operator asks for.
#[derive(Debug, Clone)]
pub enum JobCommand {
    Start,
    StartPaused,
    Pause,
    Resume,
    Stop,
    LoadFile(String),
    SetZOffset(Single),
    CancelZOffset,
    SendImmediate(String),
    SendNextLine,
    SetNextIndex(usize),
}

/// A command with its texts as characters.
pub enum CommandView {
    Start,
    StartPaused,
    Pause,
    Resume,
    Stop,
    LoadFile(Seq<char>),
    SetZOffset(Single),
    CancelZOffset,
    SendImmediate(Seq<char>),
    SendNextLine,
    SetNextIndex(usize),
}

impl View for JobCommand {
    type V = CommandView;

    open spec fn view(&self) -> CommandView {
        match self {
            JobCommand::Start => CommandView::Start,
            JobCommand::StartPaused => CommandView::StartPaused,
            JobCommand::Pause => CommandView::Pause,
            JobCommand::Resume => CommandView::Resume,
            JobCommand::Stop => CommandView::Stop,
            JobCommand::LoadFile(path) => CommandView::LoadFile(path@),
            JobCommand::SetZOffset(offset) => CommandView::SetZOffset(*offset),
            JobCommand::CancelZOffset => CommandView::CancelZOffset,
            JobCommand::SendImmediate(line) => CommandView::SendImmediate(line@),
            JobCommand::SendNextLine => CommandView::SendNextLine,
            JobCommand::SetNextIndex(index) => CommandView::SetNextIndex(*index),
        }
    }
}

/// Two statuses that the operator sees alike are alike.
pub proof fn law_statuses_are_told_apart(a: StatusView, b: StatusView)
    requires
        status_text(a) == status_text(b),
    ensures
        a == b,
{
    reveal_strlit("IDLE");
    reveal_strlit("RUNNING");
    reveal_strlit("PAUSED");
    reveal_strlit("STOPPING");
    reveal_strlit("COMPLETE");
    reveal_strlit("ERROR: ");
    reveal_strlit("WAITING FOR Z OFFSET");
    let s = status_text(a);
    let prefix = "ERROR: "@;
    match a {
        StatusView::Error(m) => {
            assert(s[0] == 'E');
            match b {
                StatusView::Error(n) => {
                    assert(m =~= s.skip(prefix.len() as int));
                    assert(n =~= s.skip(prefix.len() as int));
                },
                _ => {},
            }
        },
        _ => {
            match b {
                StatusView::Error(n) => {
                    assert(s[0] == 'E');
                },
                _ => {
                    assert(s[0] == status_text(b)[0]);
                },
            }
        },
    }
}

/// What the operator sees of each status; of an error, its message too.
pub proof fn law_what_the_operator_sees(message: Seq<char>)
    ensures
        status_text(StatusView::Idle) == "IDLE"@,
        status_text(StatusView::Running) == "RUNNING"@,
        status_text(StatusView::Paused) == "PAUSED"@,
        status_text(StatusView::Stopping) == "STOPPING"@,
        status_text(StatusView::Complete) == "COMPLETE"@,
        status_text(StatusView::WaitingForZOffset) == "WAITING FOR Z OFFSET"@,
        status_text(StatusView::Error(message)) == "ERROR: "@ + message,
{
}

/// A status is seen as what it is, with the message of an error.
pub proof fn law_statuses_say_what_they_are(status: JobStatus)
    ensures
        match status {
            JobStatus::Idle => status@ is Idle,
            JobStatus::Running => status@ is Running,
            JobStatus::Paused => status@ is Paused,
            JobStatus::Stopping => status@ is Stopping,
            JobStatus::Complete => status@ is Complete,
            JobStatus::Error(message) => status@ == StatusView::Error(message@),
            JobStatus::WaitingForZOffset => status@ is WaitingForZOffset,
        },
{
}

/// A command is what it says, with its text or number.
pub proof fn law_commands_say_what_they_are(command: JobCommand)
    ensures
        match command {
            JobCommand::Start => command@ is Start,
            JobCommand::StartPaused => command@ is StartPaused,
            JobCommand::Pause => command@ is Pause,
            JobCommand::Resume => command@ is Resume,
            JobCommand::Stop => command@ is Stop,
            JobCommand::LoadFile(path) => command@ == CommandView::LoadFile(path@),
            JobCommand::SetZOffset(offset) => command@ == CommandView::SetZOffset(offset),
            JobCommand::CancelZOffset => command@ is CancelZOffset,
            JobCommand::SendImmediate(line) => command@ == CommandView::SendImmediate(line@),
            JobCommand::SendNextLine => command@ is SendNextLine,
            JobCommand::SetNextIndex(index) => command@ == CommandView::SetNextIndex(index),
        },
{
}

/// Statuses are equal where the operator sees them alike.
pub proof fn law_which_statuses_are_equal(a: JobStatus, b: JobStatus)
    ensures
        a.eq_spec(&b) <==> status_text(a@) == status_text(b@),
{
    if status_text(a@) == status_text(b@) {
        law_statuses_are_told_apart(a@, b@);
    }
}

} // verus!
