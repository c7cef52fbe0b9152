use ai_cli::command::Exit;
use ai_cli::session::{confined, through_shell, Session};
use ai_cli::shell::{
    contains_text, detect_shell_info, interactive_shell, record_shell_output, shell_probe, Known,
    Probe, ShellAction, ShellEnv, ShellEvent,
};

fn env(shell: Option<&str>, msystem: Option<&str>, ps: Option<&str>) -> ShellEnv {
    ShellEnv {
        shell: shell.map(|s| s.to_string()),
        msystem: msystem.map(|s| s.to_string()),
        ps_module_path: ps.map(|s| s.to_string()),
    }
}

#[test]
fn unix_shell_is_named_by_its_version_line() {
    let e = env(Some("/usr/bin/zsh"), None, None);
    assert_eq!(shell_probe(false, &e), Probe::Shell(Known::Zsh));
    assert_eq!(Known::Zsh.program(), "zsh");
    assert_eq!(detect_shell_info(false, &e, Some("zsh 5.9 (x86_64)\nmore\n")), "zsh 5.9 (x86_64)");
    assert_eq!(detect_shell_info(false, &e, Some("")), "zsh");
    assert_eq!(detect_shell_info(false, &e, None), "zsh");
}

#[test]
fn unknown_unix_shell_is_named_by_its_program() {
    let e = env(Some("/opt/bin/nu"), None, None);
    assert_eq!(shell_probe(false, &e), Probe::Nothing);
    assert_eq!(detect_shell_info(false, &e, Some("ignored")), "nu");
    let e = env(Some("/bin/bash/"), None, None);
    assert_eq!(shell_probe(false, &e), Probe::Shell(Known::Bash));
}

#[test]
fn unix_without_shell_variable_is_bash() {
    let e = env(None, None, None);
    assert_eq!(shell_probe(false, &e), Probe::Nothing);
    assert_eq!(detect_shell_info(false, &e, None), "bash");
    let e = env(Some(".."), None, None);
    assert_eq!(detect_shell_info(false, &e, None), "bash");
}

#[test]
fn windows_shells_are_told_apart() {
    let e = env(None, Some("MINGW64"), Some("C:\\ps"));
    assert_eq!(shell_probe(true, &e), Probe::Shell(Known::Bash));
    assert_eq!(
        detect_shell_info(true, &e, Some("GNU bash, version 5\nx")),
        "Git Bash (MINGW64) - GNU bash, version 5"
    );
    assert_eq!(detect_shell_info(true, &e, None), "Git Bash (MINGW64)");
    assert_eq!(detect_shell_info(true, &env(None, Some("MINGW32"), None), None), "Git Bash (MINGW32)");
    assert_eq!(detect_shell_info(true, &env(None, Some("MSYS"), None), None), "MSYS");
    assert_eq!(detect_shell_info(true, &env(None, Some("UCRT64"), None), None), "MSYS/MINGW");

    let e = env(Some("C:\\Program Files\\Git\\bin\\sh.exe"), Some(""), None);
    assert_eq!(shell_probe(true, &e), Probe::Shell(Known::Bash));
    assert_eq!(detect_shell_info(true, &e, Some("GNU bash 4")), "Git Bash - GNU bash 4");
    assert_eq!(detect_shell_info(true, &e, None), "Git Bash");

    let e = env(Some("C:\\cmd.exe"), None, Some("C:\\ps"));
    assert_eq!(shell_probe(true, &e), Probe::PowerShell);
    assert_eq!(detect_shell_info(true, &e, Some(" 5.1.19041 \r\n")), "PowerShell 5.1.19041");
    assert_eq!(detect_shell_info(true, &e, None), "PowerShell");

    let e = env(None, None, Some(""));
    assert_eq!(shell_probe(true, &e), Probe::Nothing);
    assert_eq!(detect_shell_info(true, &e, None), "Command Prompt (cmd.exe)");
}

#[test]
fn contains_text_finds_substrings() {
    assert!(contains_text("/bin/bash", "sh"));
    assert!(contains_text("abc", ""));
    assert!(contains_text("", ""));
    assert!(contains_text("abc", "abc"));
    assert!(!contains_text("abc", "abcd"));
    assert!(!contains_text("/bin/zcs", "sh"));
}

#[test]
fn shell_session_runs_lines_until_exit() {
    match interactive_shell(&ShellEvent::Line("  ls -l \n".to_string())) {
        ShellAction::Run(command) => assert_eq!(command, "ls -l"),
        _ => panic!("a command was expected"),
    }
    assert!(matches!(interactive_shell(&ShellEvent::Line(" exit\n".to_string())), ShellAction::Leave));
    match interactive_shell(&ShellEvent::Line("EXIT".to_string())) {
        ShellAction::Run(command) => assert_eq!(command, "EXIT"),
        _ => panic!("a command was expected"),
    }
    match interactive_shell(&ShellEvent::InputFailed("broken pipe".to_string())) {
        ShellAction::Complain(text) => assert_eq!(text, "Input error: broken pipe"),
        _ => panic!("a complaint was expected"),
    }
    let mut log = String::new();
    record_shell_output(&mut log, "ls", "a.txt");
    record_shell_output(&mut log, "pwd", "/tmp");
    assert_eq!(log, "Command: ls\nOutput: a.txt\n\nCommand: pwd\nOutput: /tmp\n\n");
}

#[test]
fn confined_command_line_wraps_the_program() {
    let argv = confined("/work", "ls".to_string(), vec!["-l".to_string(), "a b".to_string()]);
    assert_eq!(
        argv,
        vec![
            "bwrap", "--ro-bind", "/", "/", "--bind", "/work", "/work", "--dev", "/dev", "--proc",
            "/proc", "--die-with-parent", "--chdir", "/work", "--", "ls", "-l", "a b",
        ]
    );
    assert_eq!(through_shell("echo done"), vec!["sh", "-c", "echo done"]);
}

#[test]
fn strands_are_joined_only_after_the_command_has_ended() {
    let mut session = Session::begin(42);
    assert!(session.is_alive());
    assert!(session.capture(&b"do".to_vec()));
    assert!(!session.join_input());
    assert!(!session.join_output());
    let mut session = match session.finish() {
        Err(same) => same,
        Ok(_) => panic!("the command still runs"),
    };
    session.child_exited(Exit::Code(0));
    session.child_exited(Exit::Signal);
    assert!(!session.is_alive());
    assert!(session.capture(&b"ne\n".to_vec()));
    assert!(session.join_input());
    assert!(session.join_output());
    assert!(!session.capture(&b"late".to_vec()));
    match session.finish() {
        Ok((captured, exit)) => {
            assert_eq!(captured, b"done\n".to_vec());
            assert_eq!(exit, Exit::Code(0));
        }
        Err(_) => panic!("the session is closed"),
    }
}
