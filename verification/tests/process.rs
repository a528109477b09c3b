use qemu_launcher::error::{Error, ErrorKind};
use qemu_launcher::process::{ChildEnd, ChildProcess, CommandRun, Process, Setting};

#[derive(Debug, PartialEq)]
struct Expectations {
    command_new: String,
    command_args: Vec<Vec<String>>,
    command_stdin: usize,
    command_stdout: usize,
    command_env_clear: usize,
    command_uid: Vec<u32>,
    command_gid: Vec<u32>,
    command_envs: Vec<Vec<(String, String)>>,
}

fn expect(command: &str, arguments: Vec<&str>) -> Expectations {
    Expectations {
        command_new: command.to_string(),
        command_args: vec![arguments.iter().map(|arg| arg.to_string()).collect()],
        command_stdin: 1,
        command_stdout: 1,
        command_env_clear: 0,
        command_uid: vec![],
        command_gid: vec![],
        command_envs: vec![],
    }
}

fn set_up(subject: Process) -> Expectations {
    let (command, settings) = subject.spawn();
    let mut seen = Expectations {
        command_new: command,
        command_args: vec![],
        command_stdin: 0,
        command_stdout: 0,
        command_env_clear: 0,
        command_uid: vec![],
        command_gid: vec![],
        command_envs: vec![],
    };
    for setting in settings {
        match setting {
            Setting::Args(arguments) => seen.command_args.push(arguments),
            Setting::PipeStdin => seen.command_stdin += 1,
            Setting::PipeStdout => seen.command_stdout += 1,
            Setting::EnvClear => seen.command_env_clear += 1,
            Setting::Uid(id) => seen.command_uid.push(id),
            Setting::Gid(id) => seen.command_gid.push(id),
            Setting::Envs(mut vars) => {
                vars.sort();
                seen.command_envs.push(vars);
            }
        }
    }
    seen
}

fn spawn(
    subject: Process,
    expected: Expectations,
    child: Result<ChildProcess, Error>,
) -> Result<ChildProcess, Error> {
    assert_eq!(expected, set_up(subject));

    child.map_err(|error| Process::spawn_error(&error))
}

fn words(words: &[&str]) -> Vec<String> {
    words.iter().map(|word| word.to_string()).collect()
}

fn vars(vars: Vec<(&str, &str)>) -> Vec<(String, String)> {
    vars.iter()
        .map(|(name, value)| (name.to_string(), value.to_string()))
        .collect()
}

fn assert_error<T>(kind: ErrorKind, message: &str, result: Result<T, Error>) {
    match result {
        Ok(_) => panic!("Expected an error, got successful result."),
        Err(e) => {
            assert_eq!(kind, e.kind());
            assert_eq!(message, e.to_string());
        }
    }
}

#[test]
fn process_oneshot_command_executes_process_successfully() {
    let output = CommandRun::Ended(
        true,
        "total 47\n\
            drwxr-xr-x 5 root root  3488 Oct 26 16:54 .\n\
            drwxr-xr-x 4 root root  3488 Jun  7 16:09 ..\n\
            "
        .to_string(),
        String::new(),
    );

    assert!(Process::oneshot("ls", output).is_ok());
}

#[test]
fn process_oneshot_command_returns_error_if_process_execution_fails() {
    let output = CommandRun::Failed(Error::new(
        ErrorKind::NotFound,
        "lsl: command not found\n".to_string(),
    ));

    assert_error(
        ErrorKind::Other,
        "Unable to execute the `lsl` command: lsl: command not found\n",
        Process::oneshot("lsl", output),
    );
}

#[test]
fn process_oneshot_command_returns_error_if_process_returns_non_zero_status() {
    let output = CommandRun::Ended(
        false,
        String::new(),
        "ls: cannot open directory '/non_existent': Permission denied\n".to_string(),
    );

    assert_error(
        ErrorKind::Other,
        "The `ls` command failed with:\nstdout:\n\n\nstderr:\nls: \
            cannot open directory \'/non_existent\': Permission denied\n\n",
        Process::oneshot("ls", output),
    );
}

#[test]
fn process_new_returns_process_instance() {
    let subject = Process::new("test");

    assert!(spawn(subject, expect("test", vec![]), Ok(ChildProcess::new(true, true))).is_ok());
}

#[test]
fn process_set_args_sets_command_line_options_for_child_process() {
    let subject = Process::new("test").set_args(words(&["-c", "test.yml"]));

    assert!(spawn(
        subject,
        expect("test", vec!["-c", "test.yml"]),
        Ok(ChildProcess::new(true, true))
    )
    .is_ok());
}

#[test]
fn process_set_args_replaces_command_line_options_for_child_process_on_subsequent_calls() {
    let subject = Process::new("test")
        .set_args(words(&["-c", "test.yml"]))
        .set_args(words(&["-c", "prod.yml"]));

    assert!(spawn(
        subject,
        expect("test", vec!["-c", "prod.yml"]),
        Ok(ChildProcess::new(true, true))
    )
    .is_ok());
}

#[test]
fn process_should_clear_env_true_clears_child_process_environment() {
    let mut expected = expect("test", vec![]);
    expected.command_env_clear = 1;

    let subject = Process::new("test").should_clear_env(true);

    assert!(spawn(subject, expected, Ok(ChildProcess::new(true, true))).is_ok());
}

#[test]
fn process_should_clear_env_respects_last_configured_value() {
    let subject = Process::new("test")
        .should_clear_env(true)
        .should_clear_env(false);

    assert!(spawn(subject, expect("test", vec![]), Ok(ChildProcess::new(true, true))).is_ok());
}

#[test]
fn process_set_effective_user_id_sets_effective_user_id_for_child_process_if_some_is_given() {
    let mut expected = expect("test-user", vec![]);
    expected.command_uid.push(123);

    let subject = Process::new("test-user").set_effective_user_id(&Some(123));

    assert!(spawn(subject, expected, Ok(ChildProcess::new(true, true))).is_ok());
}

#[test]
fn process_set_effective_user_does_nothing_if_none_is_given() {
    let subject = Process::new("test-user").set_effective_user_id(&None);

    assert!(spawn(subject, expect("test-user", vec![]), Ok(ChildProcess::new(true, true))).is_ok());
}

#[test]
fn process_set_effective_group_sets_effective_group_id_for_child_process_if_some_is_given() {
    let mut expected = expect("test-group", vec![]);
    expected.command_gid.push(321);

    let subject = Process::new("test-group").set_effective_group_id(&Some(321));

    assert!(spawn(subject, expected, Ok(ChildProcess::new(true, true))).is_ok());
}

#[test]
fn process_set_effective_group_does_nothing_if_none_is_given() {
    let subject = Process::new("test-group").set_effective_group_id(&None);

    assert!(spawn(subject, expect("test-group", vec![]), Ok(ChildProcess::new(true, true))).is_ok());
}

#[test]
fn process_set_environment_variables_adds_additional_child_process_environment() {
    let mut expected = expect("test-group", vec![]);
    expected.command_envs.push(vec![
        ("ENV".to_string(), "var".to_string()),
        ("VAR".to_string(), "2".to_string()),
    ]);

    let subject = Process::new("test-group")
        .set_environment_variables(&vars(vec![("ENV", "var"), ("VAR", "2")]));

    assert!(spawn(subject, expected, Ok(ChildProcess::new(true, true))).is_ok());
}

#[test]
fn process_set_environment_variables_replaces_child_process_variables_on_subsequent_calls() {
    let mut expected = expect("test-group", vec![]);
    expected
        .command_envs
        .push(vec![("TEST".to_string(), "true".to_string())]);

    let subject = Process::new("test-group")
        .set_environment_variables(&vars(vec![("ENV", "var"), ("DEMO", "false")]))
        .set_environment_variables(&vars(vec![("TEST", "true")]));

    assert!(spawn(subject, expected, Ok(ChildProcess::new(true, true))).is_ok());
}

#[test]
fn process_spawn_returns_error_if_unable_to_start_child_process() {
    let subject = Process::new("failed");

    assert_error(
        ErrorKind::Other,
        "Failed to spawn child process: test error",
        spawn(
            subject,
            expect("failed", vec![]),
            Err(Error::new(ErrorKind::Other, "test error".to_string())),
        ),
    );
}

#[test]
fn child_process_wait_returns_ok_if_child_exits_successfully() {
    let subject = ChildProcess::new(true, true);

    assert!(subject.wait(ChildEnd::Exited(true, Some(0))).is_ok());
}

#[test]
fn child_process_wait_returns_error_if_child_wait_fails() {
    let subject = ChildProcess::new(true, true);

    assert_error(
        ErrorKind::Other,
        "The child process failed: test error",
        subject.wait(ChildEnd::Failed(Error::new(
            ErrorKind::Other,
            "test error".to_string(),
        ))),
    );
}

#[test]
fn child_process_wait_returns_error_if_child_fails_and_returns_exit_status() {
    let subject = ChildProcess::new(true, true);

    assert_error(
        ErrorKind::Other,
        "The child process was terminated with `3` status.",
        subject.wait(ChildEnd::Exited(false, Some(3))),
    );
}

#[test]
fn child_process_wait_returns_error_if_child_fails_and_returns_no_exit_status() {
    let subject = ChildProcess::new(true, true);

    assert_error(
        ErrorKind::Other,
        "The child process terminated unsuccessfully, but did not return the exit status.",
        subject.wait(ChildEnd::Exited(false, None)),
    );
}

#[test]
fn spawn_error_keeps_its_kind() {
    let error = Process::spawn_error(&Error::new(ErrorKind::NotFound, "no such file".to_string()));

    assert_eq!(ErrorKind::NotFound, error.kind());
    assert_eq!("Failed to spawn child process: no such file", error.to_string());
    for kind in [ErrorKind::PermissionDenied, ErrorKind::OutOfMemory, ErrorKind::System(95)] {
        assert_eq!(kind, Process::spawn_error(&Error::new(kind, String::new())).kind());
    }
}

#[test]
fn settings_come_in_a_fixed_order() {
    let (command, settings) = Process::new("qemu")
        .set_args(words(&["-m", "2G"]))
        .set_effective_group_id(&Some(7))
        .set_effective_user_id(&Some(5))
        .set_effective_user_id(&None)
        .should_clear_env(true)
        .set_environment_variables(&vars(vec![("A", "1"), ("A", "2")]))
        .spawn();

    assert_eq!("qemu", command);
    assert_eq!(7, settings.len());
    assert!(matches!(&settings[0], Setting::Args(words) if words == &vec!["-m", "2G"]));
    assert!(matches!(&settings[1], Setting::PipeStdin));
    assert!(matches!(&settings[2], Setting::PipeStdout));
    assert!(matches!(&settings[3], Setting::EnvClear));
    assert!(matches!(&settings[4], Setting::Uid(5)));
    assert!(matches!(&settings[5], Setting::Gid(7)));
    assert!(matches!(&settings[6], Setting::Envs(found) if found == &vars(vec![("A", "2")])));
}

#[test]
fn missing_pipes_are_reported() {
    assert_error(
        ErrorKind::Other,
        "Unable to get the child process stdin",
        ChildProcess::new(false, false).get_stdio(),
    );
    assert_error(
        ErrorKind::Other,
        "Unable to get the child process stdout",
        ChildProcess::new(true, false).get_stdio(),
    );
    assert!(ChildProcess::new(true, true).get_stdio().is_ok());
}

#[test]
fn negative_exit_status_is_shown() {
    assert_error(
        ErrorKind::Other,
        "The child process was terminated with `-1` status.",
        ChildProcess::new(true, true).wait(ChildEnd::Exited(false, Some(-1))),
    );
}
