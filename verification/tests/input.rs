use ai_cli::file_edit::{can_preview, confirm_change, Change};
use ai_cli::input::{command_message, handle_user_input, prompt, remembered, shell_message, UserInput};
use ai_cli::orchestrator::Confirmation;
use ai_cli::text::{comes_before, split_words};
use ai_cli::utils::{confirm, confirm_with_always, get_sandbox_root, log_to_file};
use ai_cli::config::Config;

#[test]
fn lines_of_the_human_are_told_apart() {
    assert!(matches!(handle_user_input("exit"), UserInput::Exit));
    assert!(matches!(handle_user_input("EXIT"), UserInput::Exit));
    assert!(matches!(handle_user_input("Clear"), UserInput::Clear));
    assert!(matches!(handle_user_input(""), UserInput::Empty));
    assert!(matches!(handle_user_input("!"), UserInput::Shell));
    assert!(matches!(handle_user_input("!   "), UserInput::Shell));
    assert!(matches!(handle_user_input("! ls -l "), UserInput::Command(c) if c == "ls -l"));
    assert!(matches!(handle_user_input("exit now"), UserInput::Message(m) if m == "exit now"));
    assert!(matches!(handle_user_input("what is !x"), UserInput::Message(m) if m == "what is !x"));
}

#[test]
fn some_lines_are_not_remembered() {
    assert!(remembered("hello"));
    assert!(remembered("!ls"));
    assert!(!remembered(""));
    assert!(!remembered("exit"));
    assert!(!remembered("Exit now"));
    assert!(!remembered("CLEAR"));
    assert!(remembered("exi"));
}

#[test]
fn messages_for_the_model_and_the_prompt() {
    assert_eq!(command_message("ls", "a.txt"), "User ran command '!ls' with output: a.txt");
    assert_eq!(shell_message("log"), "User ran interactive shell session with output:\nlog");
    assert_eq!(prompt(0), "[0] > ");
    assert_eq!(prompt(1234), "[1234] > ");
}

#[test]
fn answers_to_questions_become_decisions() {
    assert_eq!(confirm(Some(true)), Confirmation::Approve);
    assert_eq!(confirm(Some(false)), Confirmation::Reject);
    assert_eq!(confirm(None), Confirmation::Reject);
    assert_eq!(confirm_with_always(" Y\n"), Some(Confirmation::Approve));
    assert_eq!(confirm_with_always("yes"), Some(Confirmation::Approve));
    assert_eq!(confirm_with_always("n"), Some(Confirmation::Reject));
    assert_eq!(confirm_with_always("NO"), Some(Confirmation::Reject));
    assert_eq!(confirm_with_always("a"), Some(Confirmation::ApproveForSession));
    assert_eq!(confirm_with_always("Always "), Some(Confirmation::ApproveForSession));
    assert_eq!(confirm_with_always(""), None);
    assert_eq!(confirm_with_always("maybe"), None);
    assert_eq!(confirm_with_always("y e s"), None);
}

#[test]
fn log_lines_carry_the_time() {
    assert_eq!(
        log_to_file(true, "2024-05-01 10:00:00", "started"),
        Some("[2024-05-01 10:00:00] started".to_string())
    );
    assert_eq!(log_to_file(false, "2024-05-01 10:00:00", "started"), None);
}

#[test]
fn sandbox_root_is_shown_without_the_verbatim_mark() {
    assert_eq!(get_sandbox_root(Some("/home/me/work"), false), "/home/me/work");
    assert_eq!(get_sandbox_root(None, false), ".");
    assert_eq!(get_sandbox_root(None, true), ".");
    assert_eq!(get_sandbox_root(Some("\\\\?\\C:\\work"), true), "C:\\work");
    assert_eq!(get_sandbox_root(Some("\\\\?\\C:\\work"), false), "\\\\?\\C:\\work");
    assert_eq!(get_sandbox_root(Some("C:\\work"), true), "C:\\work");
}

#[test]
fn summary_shows_a_hint_of_the_key() {
    let env = vec![
        ("API_BASE_URL".to_string(), "https://x".to_string()),
        ("API_VERSION".to_string(), "v1".to_string()),
        ("MODEL".to_string(), "m".to_string()),
        ("API_KEY".to_string(), "sk-12345".to_string()),
    ];
    assert_eq!(
        Config::load(&env).display_summary(),
        vec![
            "=== AI Provider Configuration ===",
            "API Base URL: https://x",
            "API Version: v1",
            "Model: m",
            "API Key: sk-1***",
            "Endpoint: https://x/v1/chat/completions",
            "Auth Method: Header (Bearer)",
            "================================",
        ]
    );
    let short = vec![("API_KEY".to_string(), "abcd".to_string())];
    assert_eq!(Config::load(&short).display_summary()[4], "API Key: ******");
}

#[test]
fn preview_shows_what_changes() {
    let change = Change {
        old_content: "one\ntwo\nthree".to_string(),
        new_content: "one\n2\nthree".to_string(),
        operation: "writing to".to_string(),
        done: String::new(),
    };
    assert!(can_preview(&change));
    assert_eq!(
        confirm_change(&change, "a.txt"),
        vec![
            "Diff preview for writing to in 'a.txt':",
            "\u{1b}[2m one\u{1b}[0m",
            "\u{1b}[91m-two\u{1b}[0m",
            "\u{1b}[92m+2\u{1b}[0m",
            "\u{1b}[2m three\u{1b}[0m",
        ]
    );
}

#[test]
fn words_and_order() {
    assert_eq!(split_words("  a bc\t\nd  "), vec!["a", "bc", "d"]);
    assert_eq!(split_words(""), Vec::<String>::new());
    assert_eq!(split_words(" \u{3000} "), Vec::<String>::new());
    for text in ["  a bc\t\nd  ", "x", "", "a\u{a0}b  c"] {
        let expected: Vec<String> = text.split_whitespace().map(|w| w.to_string()).collect();
        assert_eq!(split_words(text), expected);
    }
    for (a, b) in [("a", "b"), ("", "a"), ("a", "ab"), ("2024-01-03", "2024-01-04"), ("Z", "a"), ("z", "\u{e9}")] {
        assert!(comes_before(a, b));
        assert!(!comes_before(b, a));
        assert_eq!(comes_before(a, b), a < b);
    }
    assert!(!comes_before("same", "same"));
}
