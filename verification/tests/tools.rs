use ai_cli::invocation::{
    display_response, extract_tool_calls, get_opt_bool, get_opt_str, ArgValue, Argument,
    ModelResponse, Reply, ToolCall, ToolInvocation,
};
use ai_cli::tools::{lookup_tool, normalize_output, task_of, tool_error, tool_result, Task, Tool};

fn text_arg(name: &str, value: &str) -> Argument {
    Argument { name: name.to_string(), value: ArgValue::Text(value.to_string()) }
}

fn invocation(name: &str, args: Vec<Argument>) -> ToolInvocation {
    ToolInvocation { id: "call-1".to_string(), name: name.to_string(), args }
}

fn call(name: Option<&str>, arguments: Option<&str>) -> ToolCall {
    ToolCall {
        id: "id".to_string(),
        name: name.map(|n| n.to_string()),
        arguments: arguments.map(|a| a.to_string()),
    }
}

#[test]
fn normalize_output_trims_and_collapses() {
    assert_eq!(normalize_output("  a\r\n\r\n\r\n\r\nb\r  "), "a\n\nb");
    assert_eq!(normalize_output("a\rb\r\nc\nd"), "a\nb\nc\nd");
    assert_eq!(normalize_output("a\n\nb"), "a\n\nb");
    assert_eq!(normalize_output("a\n\n\nb\n\n\n\n\n\nc"), "a\n\nb\n\nc");
    assert_eq!(normalize_output("\n\n\n"), "");
    assert_eq!(normalize_output(""), "");
    assert_eq!(normalize_output("\u{00a0}x\u{3000}"), "x");
}

#[test]
fn tool_result_and_error_are_labelled() {
    assert_eq!(tool_result("scrape_url", "page \n"), "[Tool result] scrape_url: page");
    assert_eq!(tool_result("scrape_url", " page"), "[Tool result] scrape_url:  page");
    assert_eq!(tool_error("send_email", "no server"), "[Tool error] send_email: no server");
}

#[test]
fn registry_has_six_tools() {
    assert_eq!(lookup_tool("execute_command"), Some(Tool::ExecuteCommand));
    assert_eq!(lookup_tool("file_editor"), Some(Tool::FileEditor));
    assert_eq!(lookup_tool("scrape_url"), Some(Tool::ScrapeUrl));
    assert_eq!(lookup_tool("search_online"), Some(Tool::SearchOnline));
    assert_eq!(lookup_tool("send_email"), Some(Tool::SendEmail));
    assert_eq!(lookup_tool("stock_query"), Some(Tool::StockQuery));
    assert_eq!(lookup_tool("Execute_Command"), None);
    assert_eq!(lookup_tool(""), None);
    assert_eq!(Tool::StockQuery.label(), "stock_query");
}

#[test]
fn unknown_tool_is_answered_with_an_error() {
    match task_of(&invocation("launch_rocket", vec![]), false) {
        Task::Reply(text) => assert_eq!(text, "[Tool error] unknown: Unknown function: launch_rocket"),
        _ => panic!("a reply was expected"),
    }
}

#[test]
fn command_needs_its_command() {
    match task_of(&invocation("execute_command", vec![text_arg("command", "ls -l")]), false) {
        Task::Command { command } => assert_eq!(command, "ls -l"),
        _ => panic!("a command was expected"),
    }
    match task_of(&invocation("execute_command", vec![]), false) {
        Task::Reply(text) => {
            assert_eq!(text, "[Tool error] execute_command: Missing 'command' parameter")
        }
        _ => panic!("a reply was expected"),
    }
    let not_text = Argument { name: "command".to_string(), value: ArgValue::Flag(true) };
    assert!(matches!(task_of(&invocation("execute_command", vec![not_text]), false), Task::Reply(_)));
}

#[test]
fn search_has_defaults() {
    match task_of(&invocation("search_online", vec![text_arg("query", "rust")]), false) {
        Task::Search { query, include_results, answer_mode } => {
            assert_eq!(query, "rust");
            assert!(!include_results);
            assert_eq!(answer_mode, "basic");
        }
        _ => panic!("a search was expected"),
    }
    let args = vec![
        text_arg("answer_mode", "full"),
        Argument { name: "include_results".to_string(), value: ArgValue::Flag(true) },
        text_arg("query", "rust"),
    ];
    match task_of(&invocation("search_online", args), false) {
        Task::Search { include_results, answer_mode, .. } => {
            assert!(include_results);
            assert_eq!(answer_mode, "full");
        }
        _ => panic!("a search was expected"),
    }
    match task_of(&invocation("search_online", vec![]), false) {
        Task::Reply(text) => assert_eq!(text, "[Tool error] search_online: Missing 'query' parameter"),
        _ => panic!("a reply was expected"),
    }
}

#[test]
fn scrape_mail_and_stock_read_their_arguments() {
    match task_of(&invocation("scrape_url", vec![text_arg("url", "http://x")]), false) {
        Task::Scrape { url, mode } => {
            assert_eq!(url, "http://x");
            assert_eq!(mode, "summarized");
        }
        _ => panic!("a scrape was expected"),
    }
    match task_of(&invocation("scrape_url", vec![]), false) {
        Task::Reply(text) => assert_eq!(text, "[Tool error] scrape_url: Missing 'url' parameter"),
        _ => panic!("a reply was expected"),
    }
    match task_of(&invocation("send_email", vec![text_arg("subject", "s"), text_arg("body", "b")]), false) {
        Task::Email { subject, body } => {
            assert_eq!(subject, "s");
            assert_eq!(body, "b");
        }
        _ => panic!("a mail was expected"),
    }
    match task_of(&invocation("send_email", vec![text_arg("subject", "s")]), false) {
        Task::Reply(text) => assert_eq!(text, "[Tool error] send_email: Missing required parameters"),
        _ => panic!("a reply was expected"),
    }
    let args = vec![text_arg("function", "GLOBAL_QUOTE"), text_arg("symbol", "IBM")];
    match task_of(&invocation("stock_query", args), false) {
        Task::Stock { function, symbol, outputsize } => {
            assert_eq!(function, "GLOBAL_QUOTE");
            assert_eq!(symbol, "IBM");
            assert_eq!(outputsize, None);
        }
        _ => panic!("a stock query was expected"),
    }
    match task_of(&invocation("stock_query", vec![text_arg("symbol", "IBM")]), false) {
        Task::Reply(text) => assert_eq!(text, "[Tool error] stock_query: Missing required parameters"),
        _ => panic!("a reply was expected"),
    }
}

#[test]
fn only_changes_to_a_file_need_consent() {
    for (subcommand, unattended, skip) in [
        ("read", false, true),
        ("search", false, true),
        ("write", false, false),
        ("search_and_replace", false, false),
        ("apply_diff", false, false),
        ("write", true, true),
        ("anything", false, false),
    ] {
        let args = vec![text_arg("subcommand", subcommand), text_arg("filename", "f")];
        match task_of(&invocation("file_editor", args), unattended) {
            Task::Edit { skip_confirmation, filename, data, replacement, .. } => {
                assert_eq!(skip_confirmation, skip);
                assert_eq!(filename, "f");
                assert_eq!(data, None);
                assert_eq!(replacement, None);
            }
            _ => panic!("an edit was expected"),
        }
    }
    match task_of(&invocation("file_editor", vec![text_arg("subcommand", "read")]), false) {
        Task::Reply(text) => assert_eq!(
            text,
            "[Tool error] file_editor: Missing required parameters 'subcommand' or 'filename'"
        ),
        _ => panic!("a reply was expected"),
    }
}

#[test]
fn optional_arguments_fall_back_on_defaults() {
    let args = vec![text_arg("mode", "full"), Argument { name: "deep".to_string(), value: ArgValue::Flag(true) }];
    assert_eq!(get_opt_str(&args, "mode", "summarized"), "full");
    assert_eq!(get_opt_str(&args, "other", "summarized"), "summarized");
    assert_eq!(get_opt_str(&args, "deep", "x"), "x");
    assert!(get_opt_bool(&args, "deep", false));
    assert!(!get_opt_bool(&args, "mode", false));
    assert!(get_opt_bool(&args, "missing", true));
}

#[test]
fn extract_tool_calls_keeps_named_calls_in_order() {
    let response = ModelResponse {
        choices: vec![
            Reply {
                content: Some("first".to_string()),
                tool_calls: vec![
                    call(Some("execute_command"), Some("{\"command\": \"ls\", \"n\": 3, \"deep\": true}")),
                    call(None, Some("{}")),
                    call(Some(""), None),
                ],
            },
            Reply { content: None, tool_calls: vec![] },
            Reply {
                content: Some("second".to_string()),
                tool_calls: vec![call(Some("scrape_url"), Some("not json")), call(Some("x"), Some("[1]"))],
            },
        ],
    };
    let invs = extract_tool_calls(&response);
    assert_eq!(invs.len(), 3);
    assert_eq!(invs[0].name, "execute_command");
    assert_eq!(invs[0].id, "id");
    assert_eq!(get_opt_str(&invs[0].args, "command", ""), "ls");
    assert!(get_opt_bool(&invs[0].args, "deep", false));
    assert_eq!(get_opt_str(&invs[0].args, "n", "no string"), "no string");
    assert_eq!(invs[0].args.len(), 3);
    assert_eq!(invs[1].name, "scrape_url");
    assert!(invs[1].args.is_empty());
    assert_eq!(invs[2].name, "x");
    assert!(invs[2].args.is_empty());
    assert_eq!(display_response(&response), vec!["first", "second"]);
}

#[test]
fn response_without_choices_has_no_invocations() {
    let response = ModelResponse { choices: vec![] };
    assert!(extract_tool_calls(&response).is_empty());
    assert!(display_response(&response).is_empty());
}

#[test]
fn file_names_outside_the_root_are_answered_with_an_error() {
    for name in ["/etc/hosts", "../x", "a/../../x"] {
        let args = vec![text_arg("subcommand", "read"), text_arg("filename", name)];
        match task_of(&invocation("file_editor", args), true) {
            Task::Reply(text) => assert_eq!(
                text,
                format!("[Tool error] file_editor: Filename '{}' is outside the sandbox", name)
            ),
            _ => panic!("a reply was expected"),
        }
    }
}

#[test]
fn beneath_root_follows_the_components() {
    use_beneath(&["a", "a/b", "./a", "a/..", "a/../b", "a//b/", "", ".", "a/b/../..", "..a", "a..", "...", "ab:c", ":"], true);
    use_beneath(&["/", "/a", "\\a", "..", "../a", "a/../..", "a/b/../../..", "./..", "C:", "x:", "C:/a", "a\\..\\..\\b"], false);
}

fn use_beneath(names: &[&str], expected: bool) {
    for name in names {
        assert_eq!(ai_cli::sandbox::beneath_root(name), expected, "{}", name);
    }
}
