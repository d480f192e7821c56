use tzmcfi_tools::benchmark::{Benchmark, ProcessOutputError};
use tzmcfi_tools::capture::{CaptureError, Captured};
use tzmcfi_tools::config::{BuildMode, BuildOpt};
use tzmcfi_tools::orchestrator::{
    expand_output_dir, join_path, Action, AttemptReport, CaptureFailure, Event, Failure,
    Orchestrator, RemoveOutcome, RunError, Settings,
};
use tzmcfi_tools::process::ProcessOutcome;
use tzmcfi_tools::target::{CaptureStartError, ProgramError};

fn settings(attempts: u32) -> Settings {
    Settings {
        benchmark_name: Benchmark::Rtos.name(),
        build_cmd: "zig".to_string(),
        target_flags: vec!["-Dtarget-board=an505".to_string()],
        cache_dir: "zig-cache".to_string(),
        output_dir: "out".to_string(),
        attempts,
    }
}

fn full() -> BuildOpt {
    BuildOpt {
        mode: BuildMode::ReleaseFast,
        ctx: true,
        ses: true,
        ss: true,
        aborting_ss: true,
        icall: false,
        accel_raise_pri: false,
        unnest: false,
        rom_offset: 0,
    }
}

fn bare() -> BuildOpt {
    BuildOpt { ctx: false, ses: false, ss: false, aborting_ss: false, ..full() }
}

fn removed() -> Event {
    Event::Removed { secure: RemoveOutcome::Removed, non_secure: RemoveOutcome::NotFound }
}

fn built() -> Event {
    Event::Built(ProcessOutcome::Exited { success: true, code: Some(0), stdout: Vec::new() })
}

fn checked() -> Event {
    Event::Checked { secure_exists: true, non_secure_exists: true }
}

fn captured(output: &[u8]) -> Event {
    Event::Captured(Ok(Captured { output: output.to_vec(), matched: true }))
}

fn timeout() -> Event {
    Event::Captured(Err(CaptureFailure::Capture(CaptureError::Timeout)))
}

/// Feeds the events and collects what is asked for after each.
fn drive(run: Orchestrator, events: Vec<Event>) -> (Orchestrator, Vec<Action>) {
    let mut run = run;
    let mut actions = Vec::new();
    for event in events {
        let (next, action) = run.step(event);
        run = next;
        actions.push(action);
    }
    (run, actions)
}

/// A run that has come as far as asking for the first capture.
fn up_to_capture(attempts: u32, options: Vec<BuildOpt>) -> (Orchestrator, Vec<Action>) {
    drive(
        Orchestrator::new(settings(attempts), options),
        vec![Event::Start, removed(), built(), checked(), Event::Copied(Ok(())), Event::Programmed(Ok(()))],
    )
}

fn build_line() -> Vec<&'static str> {
    vec![
        "zig",
        "build",
        "build:bench-rtos",
        "-Drelease-fast",
        "-Dcfi=false",
        "-Dcfi-ctx",
        "-Dcfi-ses",
        "-Dcfi-ss",
        "-Dcfi-aborting-ss",
        "-Daccel-raise-pri=false",
        "-Dtarget-board=an505",
    ]
}

#[test]
fn paths_are_joined_with_one_separator() {
    assert_eq!(join_path("zig-cache", "secure"), "zig-cache/secure");
    assert_eq!(join_path("zig-cache/", "secure"), "zig-cache/secure");
    assert_eq!(join_path("", "secure"), "secure");
    assert_eq!(join_path("/", "secure"), "/secure");
}

#[test]
fn output_directory_is_formed_from_its_template() {
    assert_eq!(
        expand_output_dir(
            "runbench.artifacts/%date%-%time%-%target%-%benchmark%",
            "20240131",
            "235959",
            "Qemu",
            "Rtos"
        ),
        "runbench.artifacts/20240131-235959-Qemu-Rtos"
    );
    assert_eq!(expand_output_dir("out", "d", "t", "x", "b"), "out");
    assert_eq!(expand_output_dir("%date%%date%/%date", "d", "t", "x", "b"), "dd/%date");
    // What is put in for one variable is looked through for the next.
    assert_eq!(expand_output_dir("%date%", "%time%", "t", "x", "b"), "t");
    assert_eq!(expand_output_dir("%benchmark%", "d", "t", "x", "%date%"), "%date%");
    assert_eq!(expand_output_dir("", "d", "t", "x", "b"), "");
}

#[test]
fn attempts_are_reported() {
    let run = Orchestrator::new(settings(2), vec![full()]);
    assert_eq!(run.failed_attempt(), None);
    let (run, _) = drive(run, vec![Event::Start, removed(), built(), checked(), Event::Copied(Ok(()))]);
    assert_eq!(run.failed_attempt(), Some(AttemptReport::Retrying { remaining: 1 }));
    let (run, _) = drive(
        run,
        vec![Event::Programmed(Err(ProgramError::Path { path: "p".to_string(), error: "e".to_string() }))],
    );
    assert_eq!(run.failed_attempt(), Some(AttemptReport::RetryLimitReached));
    let (run, _) = drive(run, vec![Event::Programmed(Ok(()))]);
    assert_eq!(run.failed_attempt(), Some(AttemptReport::Retrying { remaining: 1 }));
}

#[test]
fn successful_configuration_is_saved_and_recorded() {
    let run = Orchestrator::new(settings(3), vec![full()]);
    assert!(run.records().is_empty());
    assert_eq!(run.current(), None);
    let (run, actions) = drive(
        run,
        vec![
            Event::Start,
            removed(),
            built(),
            checked(),
            Event::Copied(Ok(())),
            Event::Programmed(Ok(())),
            captured(b"boot\nDone!"),
            Event::Processed(Ok(Some(b"{}".to_vec()))),
        ],
    );
    let id = "ReleaseFast+ctx+ses+ss(aborting)";
    assert_eq!(run.current(), Some(full()));
    assert!(run.records().is_empty());
    let mut actions = actions.into_iter();
    match actions.next().unwrap() {
        Action::RemoveArtifacts { secure, non_secure } => {
            assert_eq!(secure, "zig-cache/secure");
            assert_eq!(non_secure, "zig-cache/bench-rtos");
        }
        other => panic!("unexpected {:?}", other),
    }
    match actions.next().unwrap() {
        Action::Build { cmd } => assert_eq!(cmd, build_line()),
        other => panic!("unexpected {:?}", other),
    }
    match actions.next().unwrap() {
        Action::CheckArtifacts { secure, non_secure } => {
            assert_eq!(secure, "zig-cache/secure");
            assert_eq!(non_secure, "zig-cache/bench-rtos");
        }
        other => panic!("unexpected {:?}", other),
    }
    match actions.next().unwrap() {
        Action::CopyArtifacts { secure_copy, non_secure_copy } => {
            assert_eq!(secure_copy.0, "zig-cache/secure");
            assert_eq!(secure_copy.1, format!("out/{}.secure.elf", id));
            assert_eq!(non_secure_copy.0, "zig-cache/bench-rtos");
            assert_eq!(non_secure_copy.1, format!("out/{}.bench-rtos.elf", id));
        }
        other => panic!("unexpected {:?}", other),
    }
    match actions.next().unwrap() {
        Action::Program { images } => assert_eq!(images, vec!["zig-cache/bench-rtos", "zig-cache/secure"]),
        other => panic!("unexpected {:?}", other),
    }
    assert!(matches!(actions.next().unwrap(), Action::Capture));
    match actions.next().unwrap() {
        Action::PostProcess { output } => assert_eq!(output, b"boot\nDone!".to_vec()),
        other => panic!("unexpected {:?}", other),
    }
    match actions.next().unwrap() {
        Action::WriteRaw { path, output } => {
            assert_eq!(path, format!("out/{}.raw", id));
            assert_eq!(output, b"boot\nDone!".to_vec());
        }
        other => panic!("unexpected {:?}", other),
    }
    assert!(actions.next().is_none());

    let (run, actions) =
        drive(run, vec![Event::Written(Ok(())), Event::Written(Ok(())), Event::Written(Ok(()))]);
    let mut actions = actions.into_iter();
    match actions.next().unwrap() {
        Action::WriteProcessed { path, result } => {
            assert_eq!(path, format!("out/{}.json", id));
            assert_eq!(result, b"{}".to_vec());
        }
        other => panic!("unexpected {:?}", other),
    }
    match actions.next().unwrap() {
        Action::WriteMetadata { path } => assert_eq!(path, "out/meta.json"),
        other => panic!("unexpected {:?}", other),
    }
    assert!(matches!(actions.next().unwrap(), Action::Finished));
    assert!(run.is_over());
    assert_eq!(run.current(), None);
    let records = run.records();
    assert_eq!(records.len(), 1);
    assert_eq!(records[0].build_opt, full());
    assert_eq!(records[0].name, id);
    assert_eq!(records[0].zig_build_args, build_line()[1..].to_vec());
    let names = run.settings().exe_names();
    assert_eq!(names.secure, "secure.elf");
    assert_eq!(names.non_secure, "bench-rtos.elf");
}

#[test]
fn capture_that_times_out_aborts_without_a_record() {
    let (run, actions) = up_to_capture(3, vec![full()]);
    assert!(matches!(actions.last(), Some(Action::Capture)));
    assert_eq!(run.failed_attempt(), Some(AttemptReport::Retrying { remaining: 2 }));
    let (run, actions) = drive(run, vec![timeout(), timeout()]);
    assert_eq!(run.failed_attempt(), Some(AttemptReport::RetryLimitReached));
    assert!(matches!(actions[0], Action::Capture));
    assert!(matches!(actions[1], Action::Capture));
    assert!(!run.is_over());
    let (run, actions) = drive(run, vec![timeout(), captured(b"late")]);
    match &actions[0] {
        Action::Abort(Failure { config, error }) => {
            assert_eq!(config.as_deref(), Some("ReleaseFast+ctx+ses+ss(aborting)"));
            assert!(matches!(
                error,
                RunError::OutputAcquisitionError(CaptureFailure::Capture(CaptureError::Timeout))
            ));
        }
        other => panic!("unexpected {:?}", other),
    }
    assert!(matches!(actions[1], Action::Finished));
    assert!(run.is_over());
    assert!(run.records().is_empty());
    assert_eq!(run.failed_attempt(), None);
}

#[test]
fn capture_succeeds_at_the_last_attempt() {
    let (run, _) = up_to_capture(3, vec![full()]);
    let too_long = Event::Captured(Err(CaptureFailure::Capture(CaptureError::TooLong)));
    let (run, actions) = drive(run, vec![timeout(), too_long, captured(b"Done!")]);
    assert!(matches!(actions[0], Action::Capture));
    assert!(matches!(actions[1], Action::Capture));
    assert!(matches!(actions[2], Action::PostProcess { .. }));
    assert!(!run.is_over());
}

#[test]
fn the_last_failure_is_the_one_reported() {
    let (run, _) = up_to_capture(2, vec![full()]);
    let start = Event::Captured(Err(CaptureFailure::Start(CaptureStartError::Serial("busy".to_string()))));
    let (_, actions) = drive(run, vec![timeout(), start]);
    assert!(matches!(actions[0], Action::Capture));
    assert!(matches!(
        actions[1],
        Action::Abort(Failure {
            error: RunError::OutputAcquisitionError(CaptureFailure::Start(CaptureStartError::Serial(_))),
            ..
        })
    ));
}

#[test]
fn programming_is_retried() {
    let failure = || {
        Event::Programmed(Err(ProgramError::Path { path: "p".to_string(), error: "e".to_string() }))
    };
    let run = Orchestrator::new(settings(3), vec![full()]);
    let (run, _) = drive(run, vec![Event::Start, removed(), built(), checked(), Event::Copied(Ok(()))]);
    let (run, actions) = drive(run, vec![failure(), failure()]);
    for action in actions.iter() {
        match action {
            Action::Program { images } => assert_eq!(images, &vec!["zig-cache/bench-rtos", "zig-cache/secure"]),
            other => panic!("unexpected {:?}", other),
        }
    }
    let (run, actions) = drive(run, vec![failure()]);
    assert!(matches!(
        actions[0],
        Action::Abort(Failure { error: RunError::ProgrammingError(ProgramError::Path { .. }), .. })
    ));
    assert!(run.is_over());
    assert!(run.records().is_empty());

    // With a single attempt the first failure is final.
    let run = Orchestrator::new(settings(1), vec![full()]);
    let (_, actions) =
        drive(run, vec![Event::Start, removed(), built(), checked(), Event::Copied(Ok(())), failure()]);
    assert!(matches!(actions[5], Action::Abort(_)));
}

#[test]
fn missing_artifact_is_fatal_at_once() {
    for (secure_exists, non_secure_exists, missing) in [
        (false, true, "zig-cache/secure"),
        (true, false, "zig-cache/bench-rtos"),
        (false, false, "zig-cache/secure"),
    ] {
        let run = Orchestrator::new(settings(3), vec![full()]);
        let (run, actions) = drive(
            run,
            vec![Event::Start, removed(), built(), Event::Checked { secure_exists, non_secure_exists }],
        );
        match &actions[3] {
            Action::Abort(Failure { config, error: RunError::BuiltExeNotFound(path) }) => {
                assert_eq!(path, missing);
                assert!(config.is_some());
            }
            other => panic!("unexpected {:?}", other),
        }
        assert!(run.is_over());
    }
}

#[test]
fn other_failures_end_the_run_at_once() {
    let start = || Orchestrator::new(settings(3), vec![full()]);
    let last = |events: Vec<Event>| drive(start(), events).1.pop().unwrap();

    let failed = Event::Removed {
        secure: RemoveOutcome::NotFound,
        non_secure: RemoveOutcome::Failed("denied".to_string()),
    };
    match last(vec![Event::Start, failed]) {
        Action::Abort(Failure { error: RunError::RemoveFailed { path, error }, .. }) => {
            assert_eq!(path, "zig-cache/bench-rtos");
            assert_eq!(error, "denied");
        }
        other => panic!("unexpected {:?}", other),
    }
    let failed = Event::Removed {
        secure: RemoveOutcome::Failed("first".to_string()),
        non_secure: RemoveOutcome::Failed("second".to_string()),
    };
    match last(vec![Event::Start, failed]) {
        Action::Abort(Failure { error: RunError::RemoveFailed { path, error }, .. }) => {
            assert_eq!(path, "zig-cache/secure");
            assert_eq!(error, "first");
        }
        other => panic!("unexpected {:?}", other),
    }
    let exit = Event::Built(ProcessOutcome::Exited { success: false, code: Some(1), stdout: Vec::new() });
    match last(vec![Event::Start, removed(), exit]) {
        Action::Abort(Failure { error: RunError::BuildFailed { cmd, code }, .. }) => {
            assert_eq!(cmd, build_line());
            assert_eq!(code, Some(1));
        }
        other => panic!("unexpected {:?}", other),
    }
    let spawn = Event::Built(ProcessOutcome::SpawnFailed("not found".to_string()));
    match last(vec![Event::Start, removed(), spawn]) {
        Action::Abort(Failure { error: RunError::BuildSpawnFailed { cmd, error }, .. }) => {
            assert_eq!(cmd, build_line());
            assert_eq!(error, "not found");
        }
        other => panic!("unexpected {:?}", other),
    }
    assert!(matches!(
        last(vec![Event::Start, removed(), built(), checked(), Event::Copied(Err("full".to_string()))]),
        Action::Abort(Failure { error: RunError::CopyFailed(_), .. })
    ));
    for processed in [None, Some(b"{}".to_vec())] {
        let (run, _) = up_to_capture(3, vec![full()]);
        let (run, mut actions) = drive(
            run,
            vec![captured(b"x"), Event::Processed(Ok(processed)), Event::Written(Err("full".to_string()))],
        );
        assert!(matches!(
            actions.pop().unwrap(),
            Action::Abort(Failure { error: RunError::WriteOutputError(_), .. })
        ));
        assert!(run.records().is_empty());
    }
    let (run, _) = up_to_capture(3, vec![full()]);
    let (run, mut actions) = drive(
        run,
        vec![
            captured(b"x"),
            Event::Processed(Ok(Some(b"{}".to_vec()))),
            Event::Written(Ok(())),
            Event::Written(Err("full".to_string())),
        ],
    );
    assert!(matches!(
        actions.pop().unwrap(),
        Action::Abort(Failure { error: RunError::WriteOutputError(_), .. })
    ));
    assert!(run.records().is_empty());
    // Output that the benchmark cannot make sense of is not saved.
    let (run, _) = up_to_capture(3, vec![full()]);
    let (run, mut actions) = drive(
        run,
        vec![captured(b"x"), Event::Processed(Err(ProcessOutputError::NoEnclosedOutput))],
    );
    assert!(matches!(
        actions.pop().unwrap(),
        Action::Abort(Failure {
            error: RunError::ProcessOutputError(ProcessOutputError::NoEnclosedOutput),
            ..
        })
    ));
    assert!(run.records().is_empty());
}

#[test]
fn unexpected_event_ends_the_run() {
    let run = Orchestrator::new(settings(3), vec![full()]);
    let (run, actions) = drive(run, vec![built()]);
    match &actions[0] {
        Action::Abort(Failure { config, error }) => {
            assert_eq!(*config, None);
            assert!(matches!(error, RunError::UnexpectedEvent));
        }
        other => panic!("unexpected {:?}", other),
    }
    assert!(run.is_over());
    let run = Orchestrator::new(settings(3), vec![full()]);
    let (_, actions) = drive(run, vec![Event::Start, Event::Start]);
    assert!(matches!(
        actions[1],
        Action::Abort(Failure { config: Some(_), error: RunError::UnexpectedEvent })
    ));
}

#[test]
fn configurations_are_run_in_order() {
    let options = vec![bare(), full()];
    let (run, _) = up_to_capture(3, options.clone());
    assert_eq!(run.current(), Some(bare()));
    let (run, actions) = drive(run, vec![captured(b"1"), Event::Processed(Ok(None)), Event::Written(Ok(()))]);
    match &actions[2] {
        Action::RemoveArtifacts { .. } => {}
        other => panic!("unexpected {:?}", other),
    }
    assert_eq!(run.current(), Some(full()));
    assert_eq!(run.records().len(), 1);
    assert_eq!(run.records()[0].name, "ReleaseFast");
    let (run, actions) = drive(run, vec![removed()]);
    match &actions[0] {
        Action::Build { cmd } => assert_eq!(cmd, &build_line()),
        other => panic!("unexpected {:?}", other),
    }
    // The second configuration fails: the record of the first stays, and
    // none is made for the second.
    let (run, actions) = drive(
        run,
        vec![Event::Built(ProcessOutcome::SpawnFailed("gone".to_string()))],
    );
    match &actions[0] {
        Action::Abort(Failure { config, .. }) => {
            assert_eq!(config.as_deref(), Some("ReleaseFast+ctx+ses+ss(aborting)"))
        }
        other => panic!("unexpected {:?}", other),
    }
    assert_eq!(run.records().len(), 1);
    assert_eq!(run.records()[0].build_opt, bare());
}

#[test]
fn run_without_configurations_only_saves_metadata() {
    let run = Orchestrator::new(settings(3), Vec::new());
    let (run, actions) = drive(run, vec![Event::Start]);
    assert!(matches!(actions[0], Action::WriteMetadata { .. }));
    let (run, actions) = drive(run, vec![Event::Written(Err("full".to_string()))]);
    match &actions[0] {
        Action::Abort(Failure { config, error }) => {
            assert_eq!(*config, None);
            assert!(matches!(error, RunError::WriteOutputError(_)));
        }
        other => panic!("unexpected {:?}", other),
    }
    assert!(run.is_over());
}
