use cnc_job::controller::{JobController, ListenerEvent};
use cnc_job::effect::{Effect, Event};
use cnc_job::job::JobTask;
use cnc_job::line::{LineStage, LineStep};
use cnc_job::next_line::NextLineTask;
use cnc_job::single::Single;
use cnc_job::status::{JobCommand, JobStatus};

fn strings(v: &[&str]) -> Vec<String> {
    v.iter().map(|s| s.to_string()).collect()
}

fn show(plan: &Vec<Effect>) -> Vec<String> {
    plan.iter().map(|e| format!("{e:?}")).collect()
}

fn command(c: &JobController, command: JobCommand) -> Vec<Effect> {
    c.run_command_listener(ListenerEvent::Received(command))
}

fn apply(c: &mut JobController, plan: &Vec<Effect>) {
    for e in plan {
        c.apply(e);
    }
}

fn loaded(content: &str) -> JobController {
    let mut c = JobController::new(None);
    let plan = c.run_command_listener(ListenerEvent::FileRead {
        path: "part.nc".to_string(),
        content: Ok(content.to_string()),
    });
    apply(&mut c, &plan);
    c
}

fn set_status(c: &mut JobController, status: JobStatus) {
    c.apply(&Effect::KeepStatus(status));
}

/// Answers what a task asks for, as a machine does that is always at rest, but
/// that gives no answer to the line `broken`.
fn answer(plan: &Vec<Effect>, sent: &mut Vec<String>, broken: &str) -> Event {
    match plan.last() {
        Some(Effect::Send(line)) => {
            sent.push(line.clone());
            if line == broken {
                Event::Reply(None)
            } else {
                Event::Reply(Some("<Idle>".to_string()))
            }
        }
        Some(Effect::AddOffset { numbers, offset }) => Event::Sums(
            numbers
                .iter()
                .map(|n| {
                    let old: f32 = n.parse().unwrap_or(0.0);
                    format!("{:.3}", old + f32::from_bits(offset.bits))
                })
                .collect(),
        ),
        Some(Effect::CheckDeadline) => Event::Deadline(false),
        _ => Event::Done,
    }
}

/// Runs a job to its end, or until it waits.
fn run(c: &mut JobController, broken: &str) -> (Vec<String>, Vec<String>) {
    let lines = c.lines().clone();
    let (mut job, mut plan) = c.launch(lines);
    let mut sent = Vec::new();
    let mut shown = Vec::new();
    loop {
        apply(c, &plan);
        shown.extend(show(&plan));
        if job.is_over() || matches!(plan.last(), Some(Effect::AwaitNextLine | Effect::AwaitOffset)) {
            return (sent, shown);
        }
        let event = answer(&plan, &mut sent, broken);
        assert!(job.expects(&event));
        (job, plan) = job.step(c.status(), c.offset(), event);
    }
}

#[test]
fn status_texts() {
    assert_eq!(JobStatus::Idle.to_slint_string(), "IDLE");
    assert_eq!(JobStatus::Running.to_slint_string(), "RUNNING");
    assert_eq!(JobStatus::Paused.to_slint_string(), "PAUSED");
    assert_eq!(JobStatus::Stopping.to_slint_string(), "STOPPING");
    assert_eq!(JobStatus::Complete.to_slint_string(), "COMPLETE");
    assert_eq!(JobStatus::Error("x".to_string()).to_slint_string(), "ERROR: x");
    assert_eq!(JobStatus::WaitingForZOffset.to_slint_string(), "WAITING FOR Z OFFSET");
}

#[test]
fn statuses_compare_by_message() {
    let a = JobStatus::Error("a".to_string());
    assert_eq!(a, a.clone());
    assert_ne!(a, JobStatus::Error("b".to_string()));
    assert_ne!(a, JobStatus::Idle);
    assert_eq!(JobStatus::Paused, JobStatus::Paused);
    assert_ne!(JobStatus::Paused, JobStatus::Running);
}

#[test]
fn a_new_controller() {
    let c = JobController::new(Some("a.nc".to_string()));
    assert_eq!(*c.status(), JobStatus::Idle);
    assert!(c.lines().is_empty());
    assert_eq!(c.next_index(), 0);
    assert_eq!(c.offset(), Single { bits: 0 });
    assert_eq!(
        show(&c.run_command_listener(ListenerEvent::Started)),
        strings(&["KeepStatus(Idle)", "ShowStatus(\"IDLE\")", "ReadFile(\"a.nc\")"])
    );
    let c = JobController::new(None);
    assert_eq!(
        show(&c.run_command_listener(ListenerEvent::Started)),
        strings(&["KeepStatus(Idle)", "ShowStatus(\"IDLE\")"])
    );
}

#[test]
fn loading_a_file() {
    let c = JobController::new(None);
    assert_eq!(
        show(&command(&c, JobCommand::LoadFile("p".to_string()))),
        strings(&["ReadFile(\"p\")"])
    );
    let plan = c.run_command_listener(ListenerEvent::FileRead {
        path: "p".to_string(),
        content: Ok("; a\ng1 z1\n".to_string()),
    });
    assert_eq!(
        show(&plan),
        strings(&[
            "KeepLines([\"G1 Z1\"])",
            "KeepNextIndex(0)",
            "KeepStatus(Idle)",
            "ShowStatus(\"IDLE\")",
            "ShowProgram { lines: [\"G1 Z1\"], path: \"p\" }",
            "ShowProgress { current: -1, progress: Nothing }",
        ])
    );
    let plan = c.run_command_listener(ListenerEvent::FileRead {
        path: "p".to_string(),
        content: Err("no such file".to_string()),
    });
    assert_eq!(
        show(&plan),
        strings(&[
            "KeepStatus(Error(\"Load error: no such file\"))",
            "ShowStatus(\"ERROR: Load error: no such file\")",
        ])
    );
}

#[test]
fn loading_starts_over() {
    let mut c = loaded("G1\nG2\n");
    c.apply(&Effect::KeepNextIndex(2));
    set_status(&mut c, JobStatus::Complete);
    let plan = c.load_file("q".to_string(), Ok("g3".to_string()));
    apply(&mut c, &plan);
    assert_eq!(*c.lines(), strings(&["G3"]));
    assert_eq!(c.next_index(), 0);
    assert_eq!(*c.status(), JobStatus::Idle);
    let plan = c.load_file("r".to_string(), Err("x".to_string()));
    apply(&mut c, &plan);
    assert_eq!(*c.lines(), strings(&["G3"]));
    assert_eq!(*c.status(), JobStatus::Error("Load error: x".to_string()));
}

#[test]
fn starting_a_job() {
    let c = JobController::new(None);
    for cmd in [JobCommand::Start, JobCommand::StartPaused] {
        assert_eq!(
            show(&command(&c, cmd)),
            strings(&[
                "KeepStatus(Error(\"No G-code loaded\"))",
                "ShowStatus(\"ERROR: No G-code loaded\")",
            ])
        );
    }
    let c = loaded("G1");
    assert_eq!(
        show(&command(&c, JobCommand::Start)),
        strings(&[
            "AbortJob",
            "KeepStatus(Running)",
            "ShowStatus(\"RUNNING\")",
            "LaunchJob([\"G1\"])",
        ])
    );
    assert_eq!(
        show(&command(&c, JobCommand::StartPaused)),
        strings(&[
            "AbortJob",
            "KeepStatus(Paused)",
            "ShowStatus(\"PAUSED\")",
            "Send(\"!\")",
            "LaunchJob([\"G1\"])",
        ])
    );
}

#[test]
fn pause_and_resume() {
    let mut c = loaded("G1");
    assert!(command(&c, JobCommand::Pause).is_empty());
    assert!(command(&c, JobCommand::Resume).is_empty());
    set_status(&mut c, JobStatus::Running);
    let plan = command(&c, JobCommand::Pause);
    assert_eq!(
        show(&plan),
        strings(&["KeepStatus(Paused)", "ShowStatus(\"PAUSED\")", "Send(\"!\")"])
    );
    apply(&mut c, &plan);
    assert!(command(&c, JobCommand::Pause).is_empty());
    let plan = command(&c, JobCommand::Resume);
    assert_eq!(
        show(&plan),
        strings(&[
            "KeepStatus(Running)",
            "ShowStatus(\"RUNNING\")",
            "NotifyNextLine",
            "Send(\"~\")",
        ])
    );
    apply(&mut c, &plan);
    assert_eq!(*c.status(), JobStatus::Running);
}

#[test]
fn stopping_a_job() {
    for status in [JobStatus::Running, JobStatus::Paused, JobStatus::WaitingForZOffset] {
        let mut c = loaded("G1\nG2");
        c.apply(&Effect::KeepNextIndex(1));
        set_status(&mut c, status);
        let plan = command(&c, JobCommand::Stop);
        assert_eq!(
            show(&plan),
            strings(&[
                "KeepStatus(Stopping)",
                "ShowStatus(\"STOPPING\")",
                "AbortJob",
                "Send(\"\\u{18}\")",
                "Sleep(150)",
                "Send(\"$X\")",
                "KeepNextIndex(0)",
                "KeepStatus(Idle)",
                "ShowStatus(\"IDLE\")",
            ])
        );
        apply(&mut c, &plan);
        assert_eq!(*c.status(), JobStatus::Idle);
        assert_eq!(c.next_index(), 0);
        assert_eq!(c.lines().len(), 2);
    }
    for status in [
        JobStatus::Idle,
        JobStatus::Stopping,
        JobStatus::Complete,
        JobStatus::Error("x".to_string()),
    ] {
        let mut c = loaded("G1");
        set_status(&mut c, status);
        assert!(command(&c, JobCommand::Stop).is_empty());
    }
}

#[test]
fn offsets_and_other_commands() {
    let mut c = loaded("G1");
    let offset = Single { bits: 2.5f32.to_bits() };
    let plan = command(&c, JobCommand::SetZOffset(offset));
    apply(&mut c, &plan);
    assert_eq!(c.offset(), offset);
    assert_eq!(*c.status(), JobStatus::Running);
    assert!(matches!(plan[1], Effect::NotifyOffset));
    let plan = command(&c, JobCommand::CancelZOffset);
    assert_eq!(
        show(&plan),
        strings(&["NotifyOffset", "KeepStatus(Paused)", "ShowStatus(\"PAUSED\")"])
    );
    apply(&mut c, &plan);
    assert_eq!(c.offset(), offset);
    assert_eq!(
        show(&command(&c, JobCommand::SendImmediate(" $H".to_string()))),
        strings(&["SendAside(\" $H\")"])
    );
    let plan = command(&c, JobCommand::SetNextIndex(7));
    apply(&mut c, &plan);
    assert_eq!(c.next_index(), 7);
    assert_eq!(
        format!("{:?}", c.update_gcode_ui(strings(&["A"]), "p".to_string())),
        "ShowProgram { lines: [\"A\"], path: \"p\" }"
    );
}

#[test]
fn a_job_sends_its_program() {
    let mut c = loaded("g1 x1\ng1 z2\nm30");
    set_status(&mut c, JobStatus::Running);
    let (sent, shown) = run(&mut c, "-");
    assert_eq!(sent, strings(&["$X", "G1 X1", "?", "G1 Z2", "?", "M30", "?"]));
    assert_eq!(*c.status(), JobStatus::Complete);
    assert_eq!(c.next_index(), 3);
    assert!(shown.contains(
        &"ShowProgress { current: 1, progress: Part { done: 2, total: 3 } }".to_string()
    ));
    assert_eq!(
        shown[shown.len() - 4..],
        strings(&[
            "KeepStatus(Complete)",
            "ShowProgress { current: -1, progress: Everything }",
            "ShowStatus(\"COMPLETE\")",
            "End",
        ])[..]
    );
}

#[test]
fn a_job_adds_the_offset() {
    let mut c = loaded("g1 x1 z2\nm30");
    c.apply(&Effect::KeepOffset(Single { bits: 0.5f32.to_bits() }));
    set_status(&mut c, JobStatus::Running);
    let (sent, _) = run(&mut c, "-");
    assert_eq!(sent, strings(&["$X", "G1 X1 Z2.500", "?", "M30", "?"]));
}

#[test]
fn a_job_starts_at_the_next_line() {
    let mut c = loaded("g1\ng2\ng3");
    c.apply(&Effect::KeepNextIndex(2));
    set_status(&mut c, JobStatus::Running);
    let (sent, _) = run(&mut c, "-");
    assert_eq!(sent, strings(&["$X", "G3", "?"]));
    let mut c = loaded("g1");
    c.apply(&Effect::KeepNextIndex(9));
    set_status(&mut c, JobStatus::Running);
    let (sent, _) = run(&mut c, "-");
    assert_eq!(sent, strings(&["$X"]));
    assert_eq!(*c.status(), JobStatus::Complete);
}

#[test]
fn a_paused_job_waits() {
    let mut c = loaded("g1");
    set_status(&mut c, JobStatus::Paused);
    let (sent, shown) = run(&mut c, "-");
    assert_eq!(sent, strings(&["$X"]));
    assert_eq!(shown.last(), Some(&"AwaitNextLine".to_string()));
    set_status(&mut c, JobStatus::WaitingForZOffset);
    let (_, shown) = run(&mut c, "-");
    assert_eq!(shown.last(), Some(&"AwaitOffset".to_string()));
}

#[test]
fn a_held_job_does_nothing_but_wait() {
    let zero = Single { bits: 0 };
    let (mut job, _) = JobTask::start(strings(&["G1"]), 0);
    let mut event = Event::Reply(Some("ok".to_string()));
    for status in [JobStatus::Paused, JobStatus::WaitingForZOffset, JobStatus::Paused] {
        let (held, plan) = job.step(&status, zero, event);
        let awaited = if status == JobStatus::Paused { "AwaitNextLine" } else { "AwaitOffset" };
        assert_eq!(show(&plan), strings(&[awaited]));
        job = held;
        event = Event::Done;
    }
    let (_, plan) = job.step(&JobStatus::Running, zero, event);
    assert_eq!(show(&plan), strings(&["Proceed"]));
}

#[test]
fn loading_leaves_jobs_and_the_offset_alone() {
    let mut c = loaded("g1\ng2");
    let offset = Single { bits: 1.5f32.to_bits() };
    c.apply(&Effect::KeepOffset(offset));
    set_status(&mut c, JobStatus::Running);
    let lines = c.lines().join("\n");
    let plan = c.load_file("p".to_string(), Ok(lines));
    for e in &plan {
        assert!(!matches!(e, Effect::AbortJob | Effect::LaunchJob(_)));
        assert!(!matches!(e, Effect::Send(_) | Effect::SendAside(_)));
    }
    apply(&mut c, &plan);
    assert_eq!(c.offset(), offset);
    assert_eq!(*c.lines(), strings(&["G1", "G2"]));
    assert_eq!(*c.status(), JobStatus::Idle);
}

#[test]
fn a_stopped_job_ends_without_a_word() {
    for status in [JobStatus::Stopping, JobStatus::Error("x".to_string())] {
        let mut c = loaded("g1");
        set_status(&mut c, status.clone());
        let (sent, shown) = run(&mut c, "-");
        assert_eq!(sent, strings(&["$X"]));
        assert_eq!(shown.last(), Some(&"End".to_string()));
        assert_eq!(*c.status(), status);
    }
}

#[test]
fn a_failed_line_ends_the_job() {
    let mut c = loaded("g1\ng2\ng3");
    set_status(&mut c, JobStatus::Running);
    let (sent, shown) = run(&mut c, "G2");
    assert_eq!(sent, strings(&["$X", "G1", "?", "G2"]));
    assert_eq!(*c.status(), JobStatus::Error("Send failed".to_string()));
    assert_eq!(c.next_index(), 1);
    assert_eq!(shown[shown.len() - 2], "ShowStatus(\"ERROR: Send failed\")");
    assert_eq!(shown[shown.len() - 3], "ShowProgress { current: -1, progress: Everything }");
}

#[test]
fn the_work_offset_asks_for_the_z_offset() {
    let (job, plan) = JobTask::start(strings(&["G54 G0"]), 0);
    assert_eq!(show(&plan), strings(&["Send(\"$X\")"]));
    let zero = Single { bits: 0 };
    let (job, _) = job.step(&JobStatus::Running, zero, Event::Reply(None));
    let (job, plan) = job.step(&JobStatus::Running, zero, Event::Done);
    assert_eq!(
        show(&plan),
        strings(&["KeepStatus(WaitingForZOffset)", "ShowOffsetRequest(true)", "AwaitOffset"])
    );
    let (_, plan) = job.step(&JobStatus::Paused, zero, Event::Done);
    assert!(matches!(plan[0], Effect::ShowOffsetRequest(false)));
    assert!(matches!(plan[1], Effect::AddOffset { .. }));
}

#[test]
fn a_stop_between_the_two_looks() {
    let zero = Single { bits: 0 };
    let (job, _) = JobTask::start(strings(&["G1"]), 0);
    let (job, plan) = job.step(&JobStatus::Complete, zero, Event::Reply(None));
    assert_eq!(show(&plan), strings(&["Proceed"]));
    assert!(!job.expects(&Event::Reply(None)));
    let (job, plan) = job.step(&JobStatus::Stopping, zero, Event::Done);
    assert_eq!(
        show(&plan),
        strings(&[
            "KeepStatus(Idle)",
            "ShowProgress { current: -1, progress: Nothing }",
            "ShowStatus(\"IDLE\")",
            "End",
        ])
    );
    assert!(job.is_over());
}

#[test]
fn a_line_is_given_its_time() {
    let (stage, _) = LineStage::begin("G1", Single { bits: 0 });
    assert!(stage.expects(&Event::Sums(vec![])));
    assert!(!stage.expects(&Event::Sums(strings(&["1"]))));
    let stage = match stage.step(Event::Sums(vec![])) {
        LineStep::More(stage, plan) => {
            assert_eq!(show(&plan), strings(&["Send(\"G1\")"]));
            stage
        }
        _ => panic!("no step"),
    };
    let stage = match stage.step(Event::Reply(Some("ok".to_string()))) {
        LineStep::More(stage, plan) => {
            assert_eq!(show(&plan), strings(&["SetDeadline(30)", "CheckDeadline"]));
            stage
        }
        _ => panic!("no step"),
    };
    let stage = match stage.step(Event::Deadline(false)) {
        LineStep::More(stage, plan) => {
            assert_eq!(show(&plan), strings(&["Send(\"?\")"]));
            stage
        }
        _ => panic!("no step"),
    };
    let stage = match stage.step(Event::Reply(Some("<Run>".to_string()))) {
        LineStep::More(stage, plan) => {
            assert_eq!(show(&plan), strings(&["Sleep(80)"]));
            stage
        }
        _ => panic!("no step"),
    };
    let stage = match stage.step(Event::Done) {
        LineStep::More(stage, plan) => {
            assert_eq!(show(&plan), strings(&["CheckDeadline"]));
            stage
        }
        _ => panic!("no step"),
    };
    assert!(matches!(stage.step(Event::Deadline(true)), LineStep::Finished));
}

#[test]
fn asking_for_the_next_line() {
    let mut c = loaded("g1 z1\ng2");
    set_status(&mut c, JobStatus::Paused);
    assert_eq!(show(&c.handle_send_next_line()), strings(&["NotifyNextLine"]));
    set_status(&mut c, JobStatus::Running);
    assert!(c.handle_send_next_line().is_empty());
    set_status(&mut c, JobStatus::Idle);
    assert_eq!(
        show(&c.handle_send_next_line()),
        strings(&["SendOneLine { line: \"G1 Z1\", index: 0, total: 2 }"])
    );
    c.apply(&Effect::KeepNextIndex(2));
    assert_eq!(
        show(&c.handle_send_next_line()),
        strings(&["KeepStatus(Complete)", "ShowStatus(\"COMPLETE\")"])
    );
}

fn send_one(c: &mut JobController, index: usize, broken: &str) -> Vec<String> {
    let line = c.lines()[index].clone();
    let total = c.lines().len();
    let (mut task, mut plan) = NextLineTask::start(&line, index, total, c.offset());
    let mut sent = Vec::new();
    loop {
        apply(c, &plan);
        if task.is_over() {
            return sent;
        }
        let event = answer(&plan, &mut sent, broken);
        assert!(task.expects(&event));
        (task, plan) = task.step(event);
    }
}

#[test]
fn lines_one_by_one() {
    let mut c = loaded("g1 z1\ng2");
    c.apply(&Effect::KeepOffset(Single { bits: 1.0f32.to_bits() }));
    assert_eq!(send_one(&mut c, 0, "-"), strings(&["G1 Z2.000", "?"]));
    assert_eq!(*c.status(), JobStatus::Idle);
    assert_eq!(c.next_index(), 1);
    assert_eq!(send_one(&mut c, 1, "-"), strings(&["G2", "?"]));
    assert_eq!(*c.status(), JobStatus::Complete);
    assert_eq!(c.next_index(), 2);
}

#[test]
fn a_single_line_that_fails() {
    let mut c = loaded("g1\ng2");
    assert_eq!(send_one(&mut c, 0, "G1"), strings(&["G1"]));
    assert_eq!(*c.status(), JobStatus::Error("Send failed".to_string()));
    assert_eq!(c.next_index(), 0);
}
