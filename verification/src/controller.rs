//! The controller: what each command of the operator does.
use crate::effect;
use crate::effect::{Effect, EffectView, EventView, Progress};
use crate::job;
use crate::job::{JobTask, JobView, PhaseView};
use crate::program;
use crate::single;
use crate::single::Single;
use crate::status::{CommandView, JobCommand, JobStatus, StatusView};
use crate::text;
use vstd::prelude::*;
use vstd::utf8::*;

verus! {

/// How many milliseconds a stopped machine is left alone.
pub const STOP_MILLISECONDS: u64 = 150;

/// What the controller keeps.
#[derive(Debug)]
pub struct JobController {
    gcode_lines: Vec<String>,
    job_status: JobStatus,
    next_line_index: usize,
    z_offset: Single,
    initial_file: Option<String>,
}

/// What the controller keeps, with its texts as characters.
#[verifier::ext_equal]
pub struct ControllerView {
    /// The lines of the program.
    pub lines: Seq<Seq<char>>,
    /// The status of the job.
    pub status: StatusView,
    /// The line to be sent next.
    pub next_index: usize,
    /// The Z offset.
    pub offset: Single,
    /// The file to be read at the start, if there is one.
    pub initial_file: Option<Seq<char>>,
}

impl View for JobController {
    type V = ControllerView;

    closed spec fn view(&self) -> ControllerView {
        ControllerView {
            lines: text::texts(self.gcode_lines@),
            status: self.job_status@,
            next_index: self.next_line_index,
            offset: self.z_offset,
            initial_file: effect::reply_text(self.initial_file),
        }
    }
}

/// What the listener for commands learns.
#[derive(Debug)]
pub enum ListenerEvent {
    /// It has been started.
    Started,
    /// A command has come.
    Received(JobCommand),
    /// A file has been read, or could not be read for a reason.
    FileRead { path: String, content: Result<String, String> },
}

/// Such an event with its texts as characters.
pub enum ListenerView {
    Started,
    Received(CommandView),
    FileRead { path: Seq<char>, content: Result<Seq<char>, Seq<char>> },
}

/// The content of a file, or the reason why there is none, as characters.
pub open spec fn content_text(content: Result<String, String>) -> Result<Seq<char>, Seq<char>> {
    match content {
        Ok(content) => Ok(content@),
        Err(reason) => Err(reason@),
    }
}

impl View for ListenerEvent {
    type V = ListenerView;

    open spec fn view(&self) -> ListenerView {
        match self {
            ListenerEvent::Started => ListenerView::Started,
            ListenerEvent::Received(command) => ListenerView::Received(command@),
            ListenerEvent::FileRead { path, content } => ListenerView::FileRead {
                path: path@,
                content: content_text(*content),
            },
        }
    }
}

/// What the controller keeps after an effect.
pub open spec fn after_effect(c: ControllerView, e: EffectView) -> ControllerView {
    match e {
        EffectView::KeepStatus(status) => ControllerView { status, ..c },
        EffectView::KeepLines(lines) => ControllerView { lines, ..c },
        EffectView::KeepNextIndex(next_index) => ControllerView { next_index, ..c },
        EffectView::KeepOffset(offset) => ControllerView { offset, ..c },
        _ => c,
    }
}

/// What the controller keeps after some effects.
pub open spec fn after_effects(c: ControllerView, plan: Seq<EffectView>) -> ControllerView
    decreases plan.len(),
{
    if plan.len() == 0 {
        c
    } else {
        after_effect(after_effects(c, plan.drop_last()), plan.last())
    }
}

/// What a start of a job does: with no program, nothing but to say so.
pub open spec fn start_plan(c: ControllerView, paused: bool) -> Seq<EffectView> {
    if c.lines.len() == 0 {
        effect::update_status(StatusView::Error("No G-code loaded"@))
    } else if paused {
        seq![EffectView::AbortJob] + effect::update_status(StatusView::Paused) + seq![
            EffectView::Send("!"@),
            EffectView::LaunchJob(c.lines),
        ]
    } else {
        seq![EffectView::AbortJob] + effect::update_status(StatusView::Running) + seq![
            EffectView::LaunchJob(c.lines),
        ]
    }
}

/// What a pause does: it holds a running job and the machine.
pub open spec fn pause_plan(c: ControllerView) -> Seq<EffectView> {
    if c.status is Running {
        effect::update_status(StatusView::Paused).push(EffectView::Send("!"@))
    } else {
        Seq::empty()
    }
}

/// What a resume does: it lets a paused job and the machine go on.
pub open spec fn resume_plan(c: ControllerView) -> Seq<EffectView> {
    if c.status is Paused {
        effect::update_status(StatusView::Running) + seq![
            EffectView::NotifyNextLine,
            EffectView::Send("~"@),
        ]
    } else {
        Seq::empty()
    }
}

/// Whether there is a job to be stopped.
pub open spec fn stoppable(status: StatusView) -> bool {
    status is Running || status is Paused || status is WaitingForZOffset
}

/// What a stop does: the job is ended, the machine is reset and unlocked, and
/// the program is back at its first line.
pub open spec fn stop_plan(c: ControllerView) -> Seq<EffectView> {
    if stoppable(c.status) {
        effect::update_status(StatusView::Stopping) + seq![
            EffectView::AbortJob,
            EffectView::Send("\x18"@),
            EffectView::Sleep(STOP_MILLISECONDS),
            EffectView::Send("$X"@),
            EffectView::KeepNextIndex(0),
        ] + effect::update_status(StatusView::Idle)
    } else {
        Seq::empty()
    }
}

/// What a file does that has been read, or could not be.
pub open spec fn load_plan(path: Seq<char>, content: Result<Seq<char>, Seq<char>>) -> Seq<
    EffectView,
> {
    match content {
        Err(reason) => effect::update_status(StatusView::Error("Load error: "@ + reason)),
        Ok(content) => seq![
            EffectView::KeepLines(program::program(content)),
            EffectView::KeepNextIndex(0),
        ] + effect::update_status(StatusView::Idle) + seq![
            EffectView::ShowProgram { lines: program::program(content), path },
            EffectView::ShowProgress { current: effect::NO_LINE, progress: Progress::Nothing },
        ],
    }
}

/// What is done for the next line: a paused job is told to go on, and an idle
/// controller sends the line itself, as long as there is one.
pub open spec fn next_line_plan(c: ControllerView) -> Seq<EffectView> {
    match c.status {
        StatusView::Paused => seq![EffectView::NotifyNextLine],
        StatusView::Idle => if c.next_index >= c.lines.len() {
            effect::update_status(StatusView::Complete)
        } else {
            seq![
                EffectView::SendOneLine {
                    line: c.lines[c.next_index as int],
                    index: c.next_index,
                    total: c.lines.len() as usize,
                },
            ]
        },
        _ => Seq::empty(),
    }
}

/// What a Z offset does: it is kept, and the job goes on with it.
pub open spec fn offset_plan(offset: Single) -> Seq<EffectView> {
    seq![EffectView::KeepOffset(offset), EffectView::NotifyOffset] + effect::update_status(
        StatusView::Running,
    )
}

/// What a refusal of the Z offset does: the job goes on, but to a pause.
pub open spec fn cancel_offset_plan() -> Seq<EffectView> {
    seq![EffectView::NotifyOffset] + effect::update_status(StatusView::Paused)
}

/// What a command does.
pub open spec fn command_plan(c: ControllerView, command: CommandView) -> Seq<EffectView> {
    match command {
        CommandView::Start => start_plan(c, false),
        CommandView::StartPaused => start_plan(c, true),
        CommandView::Pause => pause_plan(c),
        CommandView::Resume => resume_plan(c),
        CommandView::Stop => stop_plan(c),
        CommandView::LoadFile(path) => seq![EffectView::ReadFile(path)],
        CommandView::SetZOffset(offset) => offset_plan(offset),
        CommandView::CancelZOffset => cancel_offset_plan(),
        CommandView::SendImmediate(line) => seq![EffectView::SendAside(line)],
        CommandView::SendNextLine => next_line_plan(c),
        CommandView::SetNextIndex(index) => seq![EffectView::KeepNextIndex(index)],
    }
}

/// What the listener does.
pub open spec fn listener_plan(c: ControllerView, event: ListenerView) -> Seq<EffectView> {
    match event {
        ListenerView::Started => match c.initial_file {
            Some(path) => effect::update_status(StatusView::Idle).push(EffectView::ReadFile(path)),
            None => effect::update_status(StatusView::Idle),
        },
        ListenerView::Received(command) => command_plan(c, command),
        ListenerView::FileRead { path, content } => load_plan(path, content),
    }
}

impl JobController {
    /// A controller without a program, which is to read a file at its start,
    /// if one is given.
    pub fn new(initial_file: Option<String>) -> (r: JobController)
        ensures
            r@ == (ControllerView {
                lines: Seq::empty(),
                status: StatusView::Idle,
                next_index: 0,
                offset: Single { bits: single::ZERO },
                initial_file: effect::reply_text(initial_file),
            }),
    {
        let r = JobController {
            gcode_lines: Vec::new(),
            job_status: JobStatus::Idle,
            next_line_index: 0,
            z_offset: Single { bits: single::ZERO },
            initial_file,
        };
        assert(r@.lines =~= Seq::empty());
        r
    }

    /// The status of the job.
    pub fn status(&self) -> (r: &JobStatus)
        ensures
            r@ == self@.status,
    {
        &self.job_status
    }

    /// The Z offset.
    pub fn offset(&self) -> (r: Single)
        ensures
            r == self@.offset,
    {
        self.z_offset
    }

    /// The line to be sent next.
    pub fn next_index(&self) -> (r: usize)
        ensures
            r == self@.next_index,
    {
        self.next_line_index
    }

    /// The lines of the program.
    pub fn lines(&self) -> (r: &Vec<String>)
        ensures
            text::texts(r@) == self@.lines,
    {
        &self.gcode_lines
    }

    /// Keeps what an effect gives to be kept.
    pub fn apply(&mut self, effect: &Effect)
        ensures
            final(self)@ == after_effect(old(self)@, effect@),
    {
        match effect {
            Effect::KeepStatus(status) => {
                self.job_status = status.clone();
            },
            Effect::KeepLines(lines) => {
                self.gcode_lines = text::copy_of(lines);
            },
            Effect::KeepNextIndex(index) => {
                self.next_line_index = *index;
            },
            Effect::KeepOffset(offset) => {
                self.z_offset = *offset;
            },
            _ => {},
        }
    }

    /// The job that begins on `lines` at the line to be sent next, and what is
    /// to be done first.
    pub fn launch(&self, lines: Vec<String>) -> (r: (JobTask, Vec<Effect>))
        ensures
            job::job_fits(r.0@),
            r.0@ == job::job_start(text::texts(lines@), self@.next_index),
            effect::effects(r.1@) == job::opening(),
            effect::effects(r.1@) == seq![EffectView::Send("$X"@)],
    {
        JobTask::start(lines, self.next_line_index)
    }

    /// What a new status does.
    pub fn update_status(&self, status: JobStatus) -> (r: Vec<Effect>)
        ensures
            effect::effects(r@) == effect::update_status(status@),
    {
        let r = effect::and_status(Vec::new(), status);
        assert(effect::effects(r@) =~= effect::update_status(status@));
        r
    }

    /// How a program is shown to the operator.
    pub fn update_gcode_ui(&self, lines: Vec<String>, path: String) -> (r: Effect)
        ensures
            r@ == (EffectView::ShowProgram { lines: text::texts(lines@), path: path@ }),
    {
        Effect::ShowProgram { lines, path }
    }

    /// What a start of a job does.
    pub fn start_job_task(&self, initial_paused: bool) -> (r: Vec<Effect>)
        ensures
            effect::effects(r@) == start_plan(self@, initial_paused),
    {
        assert(text::texts(self.gcode_lines@).len() == self.gcode_lines.len());
        if self.gcode_lines.len() == 0 {
            return self.update_status(JobStatus::Error("No G-code loaded".to_owned()));
        }
        let lines = text::copy_of(&self.gcode_lines);
        let r = if initial_paused {
            let held = effect::and_status(effect::one(Effect::AbortJob), JobStatus::Paused);
            effect::and(
                effect::and(held, Effect::Send("!".to_owned())),
                Effect::LaunchJob(lines),
            )
        } else {
            let running = effect::and_status(effect::one(Effect::AbortJob), JobStatus::Running);
            effect::and(running, Effect::LaunchJob(lines))
        };
        assert(effect::effects(r@) =~= start_plan(self@, initial_paused));
        r
    }

    /// What a pause does.
    pub fn handle_pause_job(&self) -> (r: Vec<Effect>)
        ensures
            effect::effects(r@) == pause_plan(self@),
    {
        let r = if self.job_status == JobStatus::Running {
            effect::and(self.update_status(JobStatus::Paused), Effect::Send("!".to_owned()))
        } else {
            Vec::new()
        };
        assert(effect::effects(r@) =~= pause_plan(self@));
        r
    }

    /// What a resume does.
    pub fn handle_resume_job(&self) -> (r: Vec<Effect>)
        ensures
            effect::effects(r@) == resume_plan(self@),
    {
        let r = if self.job_status == JobStatus::Paused {
            let running = self.update_status(JobStatus::Running);
            effect::and(effect::and(running, Effect::NotifyNextLine), Effect::Send("~".to_owned()))
        } else {
            Vec::new()
        };
        assert(effect::effects(r@) =~= resume_plan(self@));
        r
    }

    /// What a stop does.
    pub fn handle_stop_job(&self) -> (r: Vec<Effect>)
        ensures
            effect::effects(r@) == stop_plan(self@),
    {
        let stopping = match self.job_status {
            JobStatus::Running | JobStatus::Paused | JobStatus::WaitingForZOffset => true,
            _ => false,
        };
        let r = if stopping {
            let ended = effect::and(self.update_status(JobStatus::Stopping), Effect::AbortJob);
            let reset = effect::and(ended, Effect::Send("\x18".to_owned()));
            let rested = effect::and(reset, Effect::Sleep(STOP_MILLISECONDS));
            let unlocked = effect::and(rested, Effect::Send("$X".to_owned()));
            effect::and_status(effect::and(unlocked, Effect::KeepNextIndex(0)), JobStatus::Idle)
        } else {
            Vec::new()
        };
        assert(effect::effects(r@) =~= stop_plan(self@));
        r
    }

    /// What a file does that has been read, or could not be for a reason.
    pub fn load_file(&self, path: String, content: Result<String, String>) -> (r: Vec<Effect>)
        ensures
            effect::effects(r@) == load_plan(path@, content_text(content)),
            content matches Ok(content) ==> program::known_in_ascii(content@),
            content matches Ok(content) ==> (is_ascii_chars(content@) ==> effect::effects(r@)[0]
                == EffectView::KeepLines(program::ascii_program(content@))),
    {
        match content {
            Err(reason) => self.update_status(
                JobStatus::Error("Load error: ".to_owned().concat(reason.as_str())),
            ),
            Ok(content) => {
                let lines = program::program_lines(content.as_str());
                let kept = effect::and(
                    effect::one(Effect::KeepLines(text::copy_of(&lines))),
                    Effect::KeepNextIndex(0),
                );
                let r = effect::and(
                    effect::and(
                        effect::and_status(kept, JobStatus::Idle),
                        self.update_gcode_ui(lines, path),
                    ),
                    Effect::ShowProgress { current: effect::NO_LINE, progress: Progress::Nothing },
                );
                assert(effect::effects(r@) =~= load_plan(path@, Ok(content@)));
                r
            },
        }
    }

    /// What is done for the next line.
    pub fn handle_send_next_line(&self) -> (r: Vec<Effect>)
        ensures
            effect::effects(r@) == next_line_plan(self@),
    {
        assert(text::texts(self.gcode_lines@).len() == self.gcode_lines.len());
        match self.job_status {
            JobStatus::Paused => effect::one(Effect::NotifyNextLine),
            JobStatus::Idle => {
                let index = self.next_line_index;
                let total = self.gcode_lines.len();
                if index >= total {
                    self.update_status(JobStatus::Complete)
                } else {
                    let line = self.gcode_lines[index].clone();
                    effect::one(Effect::SendOneLine { line, index, total })
                }
            },
            _ => {
                let r: Vec<Effect> = Vec::new();
                assert(effect::effects(r@) =~= Seq::empty());
                r
            },
        }
    }

    /// What a Z offset does.
    pub fn set_z_offset(&self, offset: Single) -> (r: Vec<Effect>)
        ensures
            effect::effects(r@) == offset_plan(offset),
    {
        let kept = effect::and(effect::one(Effect::KeepOffset(offset)), Effect::NotifyOffset);
        let r = effect::and_status(kept, JobStatus::Running);
        assert(effect::effects(r@) =~= offset_plan(offset));
        r
    }

    /// What a refusal of the Z offset does.
    pub fn cancel_z_offset(&self) -> (r: Vec<Effect>)
        ensures
            effect::effects(r@) == cancel_offset_plan(),
    {
        effect::and_status(effect::one(Effect::NotifyOffset), JobStatus::Paused)
    }

    /// What the listener for commands does.
    pub fn run_command_listener(&self, event: ListenerEvent) -> (r: Vec<Effect>)
        ensures
            effect::effects(r@) == listener_plan(self@, event@),
            event matches ListenerEvent::FileRead { content: Ok(content), .. }
                ==> program::known_in_ascii(content@),
            event matches ListenerEvent::FileRead { content: Ok(content), .. } ==> (is_ascii_chars(
                content@,
            ) ==> effect::effects(r@)[0] == EffectView::KeepLines(
                program::ascii_program(content@),
            )),
    {
        match event {
            ListenerEvent::Started => {
                let idle = self.update_status(JobStatus::Idle);
                match &self.initial_file {
                    Some(path) => effect::and(idle, Effect::ReadFile(path.clone())),
                    None => idle,
                }
            },
            ListenerEvent::Received(command) => match command {
                JobCommand::Start => self.start_job_task(false),
                JobCommand::StartPaused => self.start_job_task(true),
                JobCommand::Pause => self.handle_pause_job(),
                JobCommand::Resume => self.handle_resume_job(),
                JobCommand::Stop => self.handle_stop_job(),
                JobCommand::LoadFile(path) => effect::one(Effect::ReadFile(path)),
                JobCommand::SetZOffset(offset) => self.set_z_offset(offset),
                JobCommand::CancelZOffset => self.cancel_z_offset(),
                JobCommand::SendNextLine => self.handle_send_next_line(),
                JobCommand::SendImmediate(line) => effect::one(Effect::SendAside(line)),
                JobCommand::SetNextIndex(index) => effect::one(Effect::KeepNextIndex(index)),
            },
            ListenerEvent::FileRead { path, content } => self.load_file(path, content),
        }
    }
}

/// The commands that do not fit the status do nothing at all.
pub proof fn law_unfit_commands_do_nothing(c: ControllerView)
    ensures
        !(c.status is Running) ==> command_plan(c, CommandView::Pause).len() == 0,
        !(c.status is Paused) ==> command_plan(c, CommandView::Resume).len() == 0,
        !stoppable(c.status) ==> command_plan(c, CommandView::Stop).len() == 0,
        !(c.status is Paused || c.status is Idle) ==> command_plan(
            c,
            CommandView::SendNextLine,
        ).len() == 0,
{
}

/// A resume undoes a pause: what the controller keeps is what it was before.
pub proof fn law_resume_undoes_pause(c: ControllerView)
    requires
        c.status is Running,
    ensures
        ({
            let paused = after_effects(c, command_plan(c, CommandView::Pause));
            &&& paused == (ControllerView { status: StatusView::Paused, ..c })
            &&& after_effects(paused, command_plan(paused, CommandView::Resume)) == c
        }),
{
    reveal_with_fuel(after_effects, 8);
}

/// A pause holds a job before its next line, and a resume lets it go on: the
/// status is `Running` before the job is told to look at it again.
pub proof fn law_pause_holds_and_resume_lets_go(
    c: ControllerView,
    job: JobView,
    offset: Single,
    event: EventView,
)
    requires
        c.status is Running,
        job.phase is Unlocking || job.phase is Barrier,
        job.index < job.lines.len(),
    ensures
        ({
            let paused = after_effects(c, pause_plan(c));
            let resumed = after_effects(paused, resume_plan(paused));
            &&& job::job_next(job, paused.status, offset, event) == (
                job::in_phase(job, PhaseView::Barrier),
                seq![EffectView::AwaitNextLine],
            )
            &&& job::job_next(job, resumed.status, offset, event) == (
                job::in_phase(job, PhaseView::Checked),
                seq![EffectView::Proceed],
            )
            &&& resume_plan(paused)[0] == EffectView::KeepStatus(StatusView::Running)
            &&& resume_plan(paused)[2] == EffectView::NotifyNextLine
        }),
{
    law_resume_undoes_pause(c);
}

/// A stop ends in an idle controller at the first line of its program; the
/// program and the Z offset stay.
pub proof fn law_stop_goes_back_to_the_start(c: ControllerView)
    requires
        stoppable(c.status),
    ensures
        after_effects(c, command_plan(c, CommandView::Stop)) == (ControllerView {
            status: StatusView::Idle,
            next_index: 0,
            ..c
        }),
        command_plan(c, CommandView::Stop).contains(EffectView::AbortJob),
{
    reveal_with_fuel(after_effects, 12);
    let plan = command_plan(c, CommandView::Stop);
    assert(plan[2] == EffectView::AbortJob);
}

/// Whether an effect gives the controller something to keep or the operator
/// something to see, and touches neither a job nor the machine.
pub open spec fn keeps_or_shows(e: EffectView) -> bool {
    ||| e is KeepStatus || e is KeepLines || e is KeepNextIndex || e is KeepOffset
    ||| e is ShowStatus || e is ShowProgram || e is ShowProgress || e is ShowOffsetRequest
}

/// A program that is read is kept in place of the one before, from its first
/// line on, by an idle controller, whatever its state was; the Z offset stays.
/// One that cannot be read changes the status alone. Either way no job is ended
/// or begun, and nothing is sent.
pub proof fn law_loading_replaces_the_program(
    c: ControllerView,
    path: Seq<char>,
    content: Result<Seq<char>, Seq<char>>,
)
    ensures
        after_effects(c, load_plan(path, content)) == (match content {
            Ok(content) => ControllerView {
                lines: program::program(content),
                status: StatusView::Idle,
                next_index: 0,
                ..c
            },
            Err(reason) => ControllerView {
                status: StatusView::Error("Load error: "@ + reason),
                ..c
            },
        }),
        forall|i: int|
            0 <= i < load_plan(path, content).len() ==> keeps_or_shows(
                #[trigger] load_plan(path, content)[i],
            ),
{
    reveal_with_fuel(after_effects, 8);
}

/// Each line of a program that has been loaded, whatever the controller kept
/// before and whatever the content is, is clean and in capitals, where the
/// capitals of its lines of code are.
pub proof fn law_loaded_lines_are_clean(c: ControllerView, path: Seq<char>, s: Seq<char>, i: int)
    requires
        program::capitals_are_clean(s),
        0 <= i < after_effects(c, load_plan(path, Ok(s))).lines.len(),
    ensures
        ({
            let line = after_effects(c, load_plan(path, Ok(s))).lines[i];
            program::is_clean(line) && program::uppercase(line) == line
        }),
{
    law_loading_replaces_the_program(c, path, Ok(s));
    program::law_lines_in_capitals_are_clean(s, i);
}

/// A program that has been loaded, written out line by line and loaded again is
/// the same program, where the capitals of its lines of code are clean.
pub proof fn law_a_loaded_program_loads_again(c: ControllerView, path: Seq<char>, s: Seq<char>)
    requires
        program::capitals_are_clean(s),
    ensures
        ({
            let first = after_effects(c, load_plan(path, Ok(s)));
            let again = load_plan(path, Ok(text::with_newlines(first.lines)));
            after_effects(first, again) == first
        }),
{
    let first = after_effects(c, load_plan(path, Ok(s)));
    law_loading_replaces_the_program(c, path, Ok(s));
    law_loading_replaces_the_program(first, path, Ok(text::with_newlines(first.lines)));
    program::law_a_program_reads_back(s);
}

/// Without a program nothing is sent and no job begins.
pub proof fn law_no_program_no_job(c: ControllerView, paused: bool, i: int)
    requires
        c.lines.len() == 0,
        0 <= i < start_plan(c, paused).len(),
    ensures
        !(start_plan(c, paused)[i] is Send),
        !(start_plan(c, paused)[i] is LaunchJob),
        after_effects(c, start_plan(c, paused)) == (ControllerView {
            status: StatusView::Error("No G-code loaded"@),
            ..c
        }),
{
    reveal_with_fuel(after_effects, 4);
}

/// There is never more than one job: wherever one begins, the one before it has
/// been ended, in the same list of effects.
pub proof fn law_one_job_at_a_time(c: ControllerView, event: ListenerView, i: int)
    requires
        0 <= i < listener_plan(c, event).len(),
        listener_plan(c, event)[i] is LaunchJob,
    ensures
        exists|k: int| 0 <= k < i && listener_plan(c, event)[k] is AbortJob,
{
    let plan = listener_plan(c, event);
    assert(plan[0] is AbortJob);
}

/// A job that begins is given the program and goes on at the line to be sent
/// next, of which a start says nothing.
pub proof fn law_a_job_begins_where_the_last_one_was(c: ControllerView, paused: bool)
    requires
        c.lines.len() > 0,
    ensures
        start_plan(c, paused).last() == EffectView::LaunchJob(c.lines),
        after_effects(c, start_plan(c, paused)) == (ControllerView {
            status: if paused {
                StatusView::Paused
            } else {
                StatusView::Running
            },
            ..c
        }),
{
    reveal_with_fuel(after_effects, 8);
}

/// The line that a job starts at can be set: a start after it leaves it alone.
pub proof fn law_the_starting_line_can_be_set(c: ControllerView, index: usize, paused: bool)
    ensures
        ({
            let set = after_effects(c, command_plan(c, CommandView::SetNextIndex(index)));
            &&& set == (ControllerView { next_index: index, ..c })
            &&& after_effects(set, start_plan(set, paused)).next_index == index
        }),
{
    reveal_with_fuel(after_effects, 8);
}

/// A line that is sent on its own is the line of the program to be sent next.
pub proof fn law_a_single_line_is_the_next_line(c: ControllerView, i: int)
    requires
        c.lines.len() <= usize::MAX,
        0 <= i < next_line_plan(c).len(),
        next_line_plan(c)[i] is SendOneLine,
    ensures
        c.next_index < c.lines.len(),
        next_line_plan(c)[i] == (EffectView::SendOneLine {
            line: c.lines[c.next_index as int],
            index: c.next_index,
            total: c.lines.len() as usize,
        }),
{
}

/// A Z offset is kept and lets the job run; a refused one is not kept, and
/// leaves the job paused. Both let a job go on that waits for the offset.
pub proof fn law_the_offset_answers_the_request(c: ControllerView, offset: Single)
    ensures
        after_effects(c, command_plan(c, CommandView::SetZOffset(offset))) == (ControllerView {
            offset,
            status: StatusView::Running,
            ..c
        }),
        after_effects(c, command_plan(c, CommandView::CancelZOffset)) == (ControllerView {
            status: StatusView::Paused,
            ..c
        }),
        command_plan(c, CommandView::SetZOffset(offset)).contains(EffectView::NotifyOffset),
        command_plan(c, CommandView::CancelZOffset).contains(EffectView::NotifyOffset),
{
    reveal_with_fuel(after_effects, 6);
    assert(command_plan(c, CommandView::SetZOffset(offset))[1] == EffectView::NotifyOffset);
    assert(command_plan(c, CommandView::CancelZOffset)[0] == EffectView::NotifyOffset);
}

/// Wherever a list of the listener makes a new status, the operator sees it
/// right after.
pub proof fn law_a_new_status_is_shown(c: ControllerView, event: ListenerView, i: int)
    requires
        0 <= i < listener_plan(c, event).len(),
        listener_plan(c, event)[i] is KeepStatus,
    ensures
        i + 1 < listener_plan(c, event).len(),
        listener_plan(c, event)[i + 1] == EffectView::ShowStatus(
            crate::status::status_text(listener_plan(c, event)[i]->KeepStatus_0),
        ),
{
}

/// The controller keeps what an effect gives it to keep, and nothing else of it
/// changes. What is only shown, sent or waited for changes nothing.
pub proof fn law_what_the_controller_keeps(c: ControllerView, e: EffectView)
    ensures
        ({
            let after = after_effect(c, e);
            &&& after.initial_file == c.initial_file
            &&& after.status == (match e {
                EffectView::KeepStatus(status) => status,
                _ => c.status,
            })
            &&& after.lines == (match e {
                EffectView::KeepLines(lines) => lines,
                _ => c.lines,
            })
            &&& after.next_index == (match e {
                EffectView::KeepNextIndex(index) => index,
                _ => c.next_index,
            })
            &&& after.offset == (match e {
                EffectView::KeepOffset(offset) => offset,
                _ => c.offset,
            })
        }),
{
}

/// When the listener starts, the controller is idle, the operator sees it, and the
/// file that was given at the start is read, if one was.
pub proof fn law_what_the_listener_does_at_first(c: ControllerView)
    ensures
        c.initial_file is None ==> listener_plan(c, ListenerView::Started) == seq![
            EffectView::KeepStatus(StatusView::Idle),
            EffectView::ShowStatus("IDLE"@),
        ],
        c.initial_file matches Some(path) ==> listener_plan(c, ListenerView::Started) == seq![
            EffectView::KeepStatus(StatusView::Idle),
            EffectView::ShowStatus("IDLE"@),
            EffectView::ReadFile(path),
        ],
{
    if c.initial_file is Some {
        assert(listener_plan(c, ListenerView::Started) =~= seq![
            EffectView::KeepStatus(StatusView::Idle),
            EffectView::ShowStatus("IDLE"@),
            EffectView::ReadFile(c.initial_file->0),
        ]);
    }
}

/// A file that has been read becomes the program, from its first line on; the
/// controller is idle and the operator sees the program, where it came from, and
/// that nothing of it is done. Of a file that could not be read the operator sees
/// why, and nothing else happens.
pub proof fn law_what_a_file_does(
    c: ControllerView,
    path: Seq<char>,
    content: Seq<char>,
    reason: Seq<char>,
)
    ensures
        listener_plan(c, ListenerView::FileRead { path, content: Ok(content) }) == seq![
            EffectView::KeepLines(program::program(content)),
            EffectView::KeepNextIndex(0),
            EffectView::KeepStatus(StatusView::Idle),
            EffectView::ShowStatus("IDLE"@),
            EffectView::ShowProgram { lines: program::program(content), path },
            EffectView::ShowProgress { current: -1i32, progress: Progress::Nothing },
        ],
        listener_plan(c, ListenerView::FileRead { path, content: Err(reason) }) == seq![
            EffectView::KeepStatus(StatusView::Error("Load error: "@ + reason)),
            EffectView::ShowStatus("ERROR: "@ + ("Load error: "@ + reason)),
        ],
{
    assert(listener_plan(c, ListenerView::FileRead { path, content: Ok(content) }) =~= seq![
        EffectView::KeepLines(program::program(content)),
        EffectView::KeepNextIndex(0),
        EffectView::KeepStatus(StatusView::Idle),
        EffectView::ShowStatus("IDLE"@),
        EffectView::ShowProgram { lines: program::program(content), path },
        EffectView::ShowProgress { current: -1i32, progress: Progress::Nothing },
    ]);
}

/// A job is started with the program, after the one before it has been ended:
/// running, or paused with the machine held. Without a program there is no job,
/// and the operator sees why.
pub proof fn law_what_a_start_does(c: ControllerView)
    ensures
        c.lines.len() > 0 ==> {
            &&& listener_plan(c, ListenerView::Received(CommandView::Start)) == seq![
                EffectView::AbortJob,
                EffectView::KeepStatus(StatusView::Running),
                EffectView::ShowStatus("RUNNING"@),
                EffectView::LaunchJob(c.lines),
            ]
            &&& listener_plan(c, ListenerView::Received(CommandView::StartPaused)) == seq![
                EffectView::AbortJob,
                EffectView::KeepStatus(StatusView::Paused),
                EffectView::ShowStatus("PAUSED"@),
                EffectView::Send("!"@),
                EffectView::LaunchJob(c.lines),
            ]
        },
        c.lines.len() == 0 ==> {
            let refused = seq![
                EffectView::KeepStatus(StatusView::Error("No G-code loaded"@)),
                EffectView::ShowStatus("ERROR: "@ + "No G-code loaded"@),
            ];
            &&& listener_plan(c, ListenerView::Received(CommandView::Start)) == refused
            &&& listener_plan(c, ListenerView::Received(CommandView::StartPaused)) == refused
        },
{
    if c.lines.len() > 0 {
        assert(listener_plan(c, ListenerView::Received(CommandView::Start)) =~= seq![
            EffectView::AbortJob,
            EffectView::KeepStatus(StatusView::Running),
            EffectView::ShowStatus("RUNNING"@),
            EffectView::LaunchJob(c.lines),
        ]);
        assert(listener_plan(c, ListenerView::Received(CommandView::StartPaused)) =~= seq![
            EffectView::AbortJob,
            EffectView::KeepStatus(StatusView::Paused),
            EffectView::ShowStatus("PAUSED"@),
            EffectView::Send("!"@),
            EffectView::LaunchJob(c.lines),
        ]);
    }
}

/// A pause holds a running job and then the machine, a resume lets a paused job go
/// on and then the machine. Under any other status neither does anything.
pub proof fn law_what_pause_and_resume_do(c: ControllerView)
    ensures
        listener_plan(c, ListenerView::Received(CommandView::Pause)) == (if c.status is Running {
            seq![
                EffectView::KeepStatus(StatusView::Paused),
                EffectView::ShowStatus("PAUSED"@),
                EffectView::Send("!"@),
            ]
        } else {
            Seq::empty()
        }),
        listener_plan(c, ListenerView::Received(CommandView::Resume)) == (if c.status is Paused {
            seq![
                EffectView::KeepStatus(StatusView::Running),
                EffectView::ShowStatus("RUNNING"@),
                EffectView::NotifyNextLine,
                EffectView::Send("~"@),
            ]
        } else {
            Seq::empty()
        }),
{
    if c.status is Running {
        assert(listener_plan(c, ListenerView::Received(CommandView::Pause)) =~= seq![
            EffectView::KeepStatus(StatusView::Paused),
            EffectView::ShowStatus("PAUSED"@),
            EffectView::Send("!"@),
        ]);
    }
    if c.status is Paused {
        assert(listener_plan(c, ListenerView::Received(CommandView::Resume)) =~= seq![
            EffectView::KeepStatus(StatusView::Running),
            EffectView::ShowStatus("RUNNING"@),
            EffectView::NotifyNextLine,
            EffectView::Send("~"@),
        ]);
    }
}

/// A stop ends a job that runs, is paused or waits for the offset: first the job,
/// then the machine is reset, left alone for a moment and unlocked, and the
/// controller is idle at the first line. Under any other status it does nothing.
pub proof fn law_what_a_stop_does(c: ControllerView)
    ensures
        c.status is Running || c.status is Paused || c.status is WaitingForZOffset
            ==> listener_plan(c, ListenerView::Received(CommandView::Stop)) == seq![
            EffectView::KeepStatus(StatusView::Stopping),
            EffectView::ShowStatus("STOPPING"@),
            EffectView::AbortJob,
            EffectView::Send("\x18"@),
            EffectView::Sleep(150),
            EffectView::Send("$X"@),
            EffectView::KeepNextIndex(0),
            EffectView::KeepStatus(StatusView::Idle),
            EffectView::ShowStatus("IDLE"@),
        ],
        !(c.status is Running || c.status is Paused || c.status is WaitingForZOffset)
            ==> listener_plan(c, ListenerView::Received(CommandView::Stop)).len() == 0,
{
    if c.status is Running || c.status is Paused || c.status is WaitingForZOffset {
        assert(listener_plan(c, ListenerView::Received(CommandView::Stop)) =~= seq![
            EffectView::KeepStatus(StatusView::Stopping),
            EffectView::ShowStatus("STOPPING"@),
            EffectView::AbortJob,
            EffectView::Send("\x18"@),
            EffectView::Sleep(150),
            EffectView::Send("$X"@),
            EffectView::KeepNextIndex(0),
            EffectView::KeepStatus(StatusView::Idle),
            EffectView::ShowStatus("IDLE"@),
        ]);
    }
}

/// An idle controller sends the next line of its program as long as there is one,
/// the last one too, and is complete only when there is none left. A paused job
/// is called to its next line. Under any other status nothing is done.
pub proof fn law_what_a_call_for_the_next_line_does(c: ControllerView)
    requires
        c.lines.len() <= usize::MAX,
    ensures
        ({
            let plan = listener_plan(c, ListenerView::Received(CommandView::SendNextLine));
            &&& c.status is Paused ==> plan == seq![EffectView::NotifyNextLine]
            &&& c.status is Idle && c.next_index < c.lines.len() ==> plan == seq![
                EffectView::SendOneLine {
                    line: c.lines[c.next_index as int],
                    index: c.next_index,
                    total: c.lines.len() as usize,
                },
            ]
            &&& c.status is Idle && c.next_index >= c.lines.len() ==> plan == seq![
                EffectView::KeepStatus(StatusView::Complete),
                EffectView::ShowStatus("COMPLETE"@),
            ]
            &&& !(c.status is Paused || c.status is Idle) ==> plan.len() == 0
        }),
{
}

/// What the other commands do, under every status: a file is read, an offset is
/// kept and the job let go on, running; a refused one lets it go on to a pause; a
/// line is sent aside as it is; the next line is set.
pub proof fn law_what_the_other_commands_do(
    c: ControllerView,
    s: Seq<char>,
    offset: Single,
    index: usize,
)
    ensures
        listener_plan(c, ListenerView::Received(CommandView::LoadFile(s))) == seq![
            EffectView::ReadFile(s),
        ],
        listener_plan(c, ListenerView::Received(CommandView::SetZOffset(offset))) == seq![
            EffectView::KeepOffset(offset),
            EffectView::NotifyOffset,
            EffectView::KeepStatus(StatusView::Running),
            EffectView::ShowStatus("RUNNING"@),
        ],
        listener_plan(c, ListenerView::Received(CommandView::CancelZOffset)) == seq![
            EffectView::NotifyOffset,
            EffectView::KeepStatus(StatusView::Paused),
            EffectView::ShowStatus("PAUSED"@),
        ],
        listener_plan(c, ListenerView::Received(CommandView::SendImmediate(s))) == seq![
            EffectView::SendAside(s),
        ],
        listener_plan(c, ListenerView::Received(CommandView::SetNextIndex(index))) == seq![
            EffectView::KeepNextIndex(index),
        ],
{
    assert(listener_plan(c, ListenerView::Received(CommandView::SetZOffset(offset))) =~= seq![
        EffectView::KeepOffset(offset),
        EffectView::NotifyOffset,
        EffectView::KeepStatus(StatusView::Running),
        EffectView::ShowStatus("RUNNING"@),
    ]);
    assert(listener_plan(c, ListenerView::Received(CommandView::CancelZOffset)) =~= seq![
        EffectView::NotifyOffset,
        EffectView::KeepStatus(StatusView::Paused),
        EffectView::ShowStatus("PAUSED"@),
    ]);
}

/// A new controller is idle, has no program and no offset, and remembers the file
/// that it was given.
pub proof fn law_a_new_controller(file: Option<String>, c: JobController)
    requires
        call_ensures(JobController::new, (file,), c),
    ensures
        c@.lines.len() == 0,
        c@.status is Idle,
        c@.next_index == 0,
        c@.offset.bits == 0,
        file matches Some(path) ==> c@.initial_file == Some(path@),
        file is None ==> c@.initial_file is None,
{
}

/// A job is launched at the line to be sent next, on the lines that it is given,
/// and begins with the unlocking.
pub proof fn law_where_a_job_is_launched(
    c: JobController,
    lines: Vec<String>,
    job: JobTask,
    plan: Vec<Effect>,
)
    requires
        call_ensures(JobController::launch, (&c, lines), (job, plan)),
    ensures
        job@.lines == text::texts(lines@),
        job@.index == c@.next_index,
        job@.phase is Unlocking,
        plan@.len() == 1,
        plan@[0]@ == EffectView::Send("$X"@),
{
    assert(effect::effects(plan@).len() == plan@.len());
    assert(effect::effects(plan@)[0] == plan@[0]@);
}

/// A call for the next line sends it wherever an idle controller has one, and says
/// that the program is complete only where it has none.
pub proof fn law_an_idle_controller_sends_every_line(c: JobController, plan: Vec<Effect>)
    requires
        c@.status is Idle,
        c@.lines.len() <= usize::MAX,
        call_ensures(JobController::handle_send_next_line, (&c,), plan),
    ensures
        c@.next_index < c@.lines.len() ==> plan@.len() == 1 && plan@[0]@ == (
        EffectView::SendOneLine {
            line: c@.lines[c@.next_index as int],
            index: c@.next_index,
            total: c@.lines.len() as usize,
        }),
        c@.next_index >= c@.lines.len() ==> plan@.len() == 2 && plan@[0]@ == EffectView::KeepStatus(
            StatusView::Complete,
        ),
{
    law_what_a_call_for_the_next_line_does(c@);
    assert(effect::effects(plan@).len() == plan@.len());
    assert(effect::effects(plan@)[0] == plan@[0]@);
}

/// The listener says what it learns with each of its texts.
pub proof fn law_listener_events_say_what_they_are(event: ListenerEvent)
    ensures
        match event {
            ListenerEvent::Started => event@ is Started,
            ListenerEvent::Received(command) => event@ == ListenerView::Received(command@),
            ListenerEvent::FileRead { path, content: Ok(content) } => event@
                == (ListenerView::FileRead { path: path@, content: Ok(content@) }),
            ListenerEvent::FileRead { path, content: Err(reason) } => event@
                == (ListenerView::FileRead { path: path@, content: Err(reason@) }),
        },
{
}

/// What the listener does is what its plan says, and an offset that is set or
/// refused from outside of it does what the command for it does.
pub proof fn law_what_calls_of_the_controller_do(
    c: JobController,
    event: ListenerEvent,
    offset: Single,
    plan: Vec<Effect>,
    set: Vec<Effect>,
    refused: Vec<Effect>,
)
    requires
        call_ensures(JobController::run_command_listener, (&c, event), plan),
        call_ensures(JobController::set_z_offset, (&c, offset), set),
        call_ensures(JobController::cancel_z_offset, (&c,), refused),
    ensures
        effect::effects(plan@) == listener_plan(c@, event@),
        effect::effects(set@) == seq![
            EffectView::KeepOffset(offset),
            EffectView::NotifyOffset,
            EffectView::KeepStatus(StatusView::Running),
            EffectView::ShowStatus("RUNNING"@),
        ],
        effect::effects(refused@) == seq![
            EffectView::NotifyOffset,
            EffectView::KeepStatus(StatusView::Paused),
            EffectView::ShowStatus("PAUSED"@),
        ],
{
    law_what_the_other_commands_do(c@, Seq::empty(), offset, 0);
}

} // verus!
