use mast::config::Configuration;
use mast::config::Options;
use mast::config::Target;
use mast::engine::CommandOutcome;
use mast::engine::ExecutionFailure;
use mast::engine::RunStep;
use mast::engine::run_recorded;
use mast::engine::run_start;

#[test]
fn resolve_zero_targets_is_unknown() {
    let c = Configuration { options: Options { logging: None }, target: Vec::new() };
    let r = c.resolve(&"anything".to_string());
    match r {
        Err(ExecutionFailure::UnknownTarget(name)) => assert_eq!(name, "anything"),
        _ => panic!("zero targets must resolve nothing"),
    }
}

#[test]
fn resolve_unknown_name_is_unknown_target() {
    let t = Target { about: "Build".to_string(), command: vec!["cargo build".to_string()] };
    let c = Configuration {
        options: Options { logging: None },
        target: vec![("build".to_string(), t)],
    };
    let r = c.resolve(&"deploy".to_string());
    match r {
        Err(ExecutionFailure::UnknownTarget(name)) => assert_eq!(name, "deploy"),
        _ => panic!("a name that is not declared must be unknown"),
    }
}

#[test]
fn resolve_finds_declared_target() {
    let t = Target { about: "Build".to_string(), command: vec!["cargo build".to_string()] };
    let c = Configuration {
        options: Options { logging: None },
        target: vec![("build".to_string(), t)],
    };
    let r = c.resolve(&"build".to_string());
    match r {
        Ok(found) => {
            assert_eq!(found.about, "Build");
            assert_eq!(found.command, vec!["cargo build".to_string()]);
        },
        Err(_) => panic!("a declared target must resolve"),
    }
}

#[test]
fn run_empty_command_list_fails_without_spawning() {
    let t = Target { about: "nothing".to_string(), command: Vec::new() };
    let outcomes: Vec<CommandOutcome> = Vec::new();
    let (result, spawned) = run_recorded(&t, &outcomes);
    assert!(matches!(result, Err(ExecutionFailure::EmptyCommandList)));
    assert_eq!(spawned, Vec::<usize>::new());
}

#[test]
fn run_all_success_spawns_each_command_once_in_order() {
    let t = Target {
        about: "two steps".to_string(),
        command: vec!["echo hi".to_string(), "cargo build".to_string()],
    };
    let outcomes = vec![
        CommandOutcome::Exited(Some(0)),
        CommandOutcome::Exited(Some(0)),
    ];
    let (result, spawned) = run_recorded(&t, &outcomes);
    assert!(matches!(result, Ok(())));
    assert_eq!(spawned, vec![0, 1]);
}

#[test]
fn run_fail_fast_identifies_failing_command() {
    let t = Target {
        about: "build".to_string(),
        command: vec![
            "echo hi".to_string(),
            "false".to_string(),
            "echo unreachable".to_string(),
        ],
    };
    let outcomes = vec![
        CommandOutcome::Exited(Some(0)),
        CommandOutcome::Exited(Some(1)),
        CommandOutcome::Exited(Some(0)),
    ];
    let (result, spawned) = run_recorded(&t, &outcomes);
    match result {
        Err(ExecutionFailure::CommandFailed(cmd, code)) => {
            assert_eq!(cmd, "false");
            assert_eq!(code, Some(1));
        },
        _ => panic!("a non-zero exit must fail the run"),
    }
    assert_eq!(spawned, vec![0, 1]);
}

#[test]
fn run_signal_ended_command_has_no_exit_code() {
    let t = Target { about: "one".to_string(), command: vec!["sleep 100".to_string()] };
    let outcomes = vec![CommandOutcome::Exited(None)];
    let (result, spawned) = run_recorded(&t, &outcomes);
    match result {
        Err(ExecutionFailure::CommandFailed(cmd, code)) => {
            assert_eq!(cmd, "sleep 100");
            assert_eq!(code, None);
        },
        _ => panic!("a signal-ended command must fail the run"),
    }
    assert_eq!(spawned, vec![0]);
}

#[test]
fn run_spawn_failure_halts_with_message() {
    let t = Target {
        about: "missing".to_string(),
        command: vec!["no-such-program --flag".to_string(), "echo never".to_string()],
    };
    let outcomes = vec![
        CommandOutcome::SpawnError("no such file".to_string()),
        CommandOutcome::Exited(Some(0)),
    ];
    let (result, spawned) = run_recorded(&t, &outcomes);
    match result {
        Err(ExecutionFailure::SpawnFailure(cmd, msg)) => {
            assert_eq!(cmd, "no-such-program --flag");
            assert_eq!(msg, "no such file");
        },
        _ => panic!("a spawn error must fail the run"),
    }
    assert_eq!(spawned, vec![0]);
}

#[test]
fn run_whitespace_only_command_is_malformed() {
    let t = Target { about: "blank".to_string(), command: vec!["   ".to_string()] };
    let outcomes = vec![CommandOutcome::Exited(Some(0))];
    let (result, spawned) = run_recorded(&t, &outcomes);
    match result {
        Err(ExecutionFailure::MalformedCommand(cmd)) => assert_eq!(cmd, "   "),
        _ => panic!("a whitespace-only command must be malformed"),
    }
    assert_eq!(spawned, Vec::<usize>::new());
}

#[test]
fn run_start_splits_command_into_program_and_args() {
    let t = Target {
        about: "tokens".to_string(),
        command: vec!["echo  hi   there".to_string()],
    };
    match run_start(&t) {
        RunStep::Spawn { index, program, args } => {
            assert_eq!(index, 0);
            assert_eq!(program, "echo");
            assert_eq!(args, vec!["hi".to_string(), "there".to_string()]);
        },
        _ => panic!("a spawnable command must yield a spawn step"),
    }
}

#[test]
fn run_start_empty_command_list_fails_at_once() {
    let t = Target { about: "nothing".to_string(), command: Vec::new() };
    match run_start(&t) {
        RunStep::Failed(ExecutionFailure::EmptyCommandList) => {},
        _ => panic!("an empty command list must fail before any spawn"),
    }
}
