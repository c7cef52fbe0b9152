use ai_cli::command::{command_report, execute_command, interactive_result, CommandPlan, ExecError, Exit, Ran};

fn exited(exit: Exit, stdout: &str, stderr: &str) -> Ran {
    Ran::Exited { exit, stdout: stdout.to_string(), stderr: stderr.to_string() }
}

#[test]
fn blank_command_is_answered_without_running() {
    for command in ["", "   ", "\t\n", "\u{2003}"] {
        match execute_command(command) {
            CommandPlan::Reply(text) => assert_eq!(text, "Error: No command provided"),
            _ => panic!("a reply was expected"),
        }
    }
}

#[test]
fn comment_only_command_is_answered_without_running() {
    match execute_command("# nothing to do") {
        CommandPlan::Reply(text) => assert_eq!(text, "Error: No command provided"),
        _ => panic!("a reply was expected"),
    }
}

#[test]
fn command_line_is_split_into_program_and_arguments() {
    match execute_command("grep -n 'two words' \"a file\" plain\\ text") {
        CommandPlan::Spawn { program, args } => {
            assert_eq!(program, "grep");
            assert_eq!(args, vec!["-n", "two words", "a file", "plain text"]);
        }
        _ => panic!("a program was expected"),
    }
}

#[test]
fn pipes_are_passed_through_as_words() {
    match execute_command("ls | wc -l") {
        CommandPlan::Spawn { program, args } => {
            assert_eq!(program, "ls");
            assert_eq!(args, vec!["|", "wc", "-l"]);
        }
        _ => panic!("a program was expected"),
    }
}

#[test]
fn unbalanced_quote_is_refused_before_anything_runs() {
    match execute_command("echo 'never closed") {
        CommandPlan::Refuse(message) => {
            assert_eq!(message, "Failed to parse command: missing closing quote")
        }
        _ => panic!("a refusal was expected"),
    }
}

#[test]
fn silent_success_gets_the_no_output_text() {
    let report = command_report("true", &exited(Exit::Code(0), "", ""));
    assert_eq!(report, Ok("Command executed (no output)".to_string()));
}

#[test]
fn silent_success_differs_from_failure() {
    let silent = command_report("true", &exited(Exit::Code(0), "", "")).unwrap();
    let failed = command_report("true", &exited(Exit::Code(1), "", "")).unwrap();
    assert_ne!(silent, failed);
    assert_eq!(failed, "Command 'true' exited with non-zero status");
}

#[test]
fn output_of_a_success_is_stdout_then_stderr() {
    let report = command_report("x", &exited(Exit::Code(0), "out\n", "warn\n"));
    assert_eq!(report, Ok("out\nwarn\n".to_string()));
    let report = command_report("x", &exited(Exit::Code(0), "", "only err"));
    assert_eq!(report, Ok("only err".to_string()));
}

#[test]
fn failure_reports_the_command_and_trimmed_stderr() {
    let report = command_report("ls /nope", &exited(Exit::Code(2), "ignored", "  no such file\n"));
    assert_eq!(
        report,
        Ok("Command 'ls /nope' exited with non-zero status: no such file".to_string())
    );
    let report = command_report("ls /nope", &exited(Exit::Code(2), "", " \n"));
    assert_eq!(report, Ok("Command 'ls /nope' exited with non-zero status".to_string()));
}

#[test]
fn a_signal_counts_as_failure() {
    let report = command_report("sleep 9", &exited(Exit::Signal, "", ""));
    assert_eq!(report, Ok("Command 'sleep 9' exited with non-zero status".to_string()));
}

#[test]
fn a_program_that_does_not_start_is_an_error() {
    let report = command_report("nope", &Ran::NotStarted("No such file or directory".to_string()));
    assert_eq!(report, Err("Failed to run command: No such file or directory".to_string()));
}

#[test]
fn interactive_result_tells_three_endings_apart() {
    match interactive_result("echo done", "done\r\n".to_string(), Exit::Code(0)) {
        Ok(captured) => assert!(captured.contains("done")),
        Err(_) => panic!("success was expected"),
    }
    match interactive_result("false", String::new(), Exit::Code(3)) {
        Err(ExecError::Failed { command, code }) => {
            assert_eq!(command, "false");
            assert_eq!(code, 3);
        }
        _ => panic!("a failure with its code was expected"),
    }
    match interactive_result("sleep 9", String::new(), Exit::Signal) {
        Err(ExecError::Killed { command }) => assert_eq!(command, "sleep 9"),
        _ => panic!("a killed command was expected"),
    }
}

#[test]
fn failures_of_interactive_commands_are_worded() {
    let failed = ExecError::Failed { command: "make".to_string(), code: 2 };
    assert_eq!(failed.message(), "Command 'make' exited with status 2");
    let negative = ExecError::Failed { command: "x".to_string(), code: i32::MIN };
    assert_eq!(negative.message(), "Command 'x' exited with status -2147483648");
    let killed = ExecError::Killed { command: "sleep 9".to_string() };
    assert_eq!(killed.message(), "Command 'sleep 9' was terminated by a signal");
}
