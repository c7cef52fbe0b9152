use ai_cli::invocation::{ModelResponse, Reply, ToolCall};
use ai_cli::orchestrator::{Confirmation, Outcome, Phase, Request, ToolLoop};

fn call(name: &str, arguments: &str) -> ToolCall {
    ToolCall { id: String::new(), name: Some(name.to_string()), arguments: Some(arguments.to_string()) }
}

fn response(calls: Vec<ToolCall>) -> ModelResponse {
    ModelResponse { choices: vec![Reply { content: Some("text".to_string()), tool_calls: calls }] }
}

fn outcome(text: &str) -> Outcome {
    Outcome { text: text.to_string(), failed: false, rejected: false }
}

#[test]
fn response_without_invocations_ends_the_loop() {
    let mut tools = ToolLoop::new(false);
    assert_eq!(tools.process_tool_calls(&response(vec![])), Request::Stop);
    assert_eq!(tools.phase, Phase::Terminated);
    assert!(tools.results.is_empty());
}

#[test]
fn results_are_submitted_in_invocation_order() {
    let mut tools = ToolLoop::new(false);
    let batch = response(vec![
        call("scrape_url", "{\"url\": \"http://a\"}"),
        call("mystery", "{}"),
        call("search_online", "{\"query\": \"q\"}"),
    ]);
    assert_eq!(tools.process_tool_calls(&batch), Request::Perform(0));
    assert_eq!(tools.complete(outcome("page\r\n\r\n\r\n\r\ntext")), Request::Perform(2));
    assert_eq!(tools.complete(outcome("answer")), Request::Submit);
    assert_eq!(tools.phase, Phase::AwaitingModel);
    assert_eq!(
        tools.results,
        vec![
            "[Tool result] scrape_url: page\n\ntext",
            "[Tool error] unknown: Unknown function: mystery",
            "[Tool result] search_online: answer",
        ]
    );
    assert_eq!(
        tools.follow_up(),
        "[Tool result] scrape_url: page\n\ntext\n[Tool error] unknown: Unknown function: mystery\n[Tool result] search_online: answer"
    );
    assert_eq!(tools.process_tool_calls(&response(vec![])), Request::Stop);
}

#[test]
fn unknown_tool_alone_yields_one_error_and_a_submission() {
    let mut tools = ToolLoop::new(false);
    assert_eq!(tools.process_tool_calls(&response(vec![call("mystery", "{}")])), Request::Submit);
    assert_eq!(tools.results, vec!["[Tool error] unknown: Unknown function: mystery"]);
}

#[test]
fn rejected_command_short_circuits_the_batch() {
    let mut tools = ToolLoop::new(false);
    let batch = response(vec![
        call("file_editor", "{\"subcommand\": \"read\", \"filename\": \"a\"}"),
        call("execute_command", "{\"command\": \"rm -rf x\"}"),
        call("scrape_url", "{\"url\": \"http://never\"}"),
    ]);
    assert_eq!(tools.process_tool_calls(&batch), Request::Perform(0));
    assert_eq!(tools.complete(outcome("File contents:\nx")), Request::Confirm(1));
    assert_eq!(tools.decide(Confirmation::Reject), Request::Fold);
    assert_eq!(tools.phase, Phase::Terminated);
    assert_eq!(
        tools.results,
        vec![
            "[Tool result] file_editor: File contents:\nx",
            "[Tool result] execute_command: User rejected the command execution.",
        ]
    );
    assert_eq!(tools.next, 1);
}

#[test]
fn rejected_edit_short_circuits_the_batch() {
    let mut tools = ToolLoop::new(false);
    let batch = response(vec![
        call("search_online", "{\"query\": \"q\"}"),
        call("file_editor", "{\"subcommand\": \"write\", \"filename\": \"a\", \"data\": \"x\"}"),
        call("execute_command", "{\"command\": \"ls\"}"),
    ]);
    assert_eq!(tools.process_tool_calls(&batch), Request::Perform(0));
    assert_eq!(tools.complete(outcome("found")), Request::Perform(1));
    let refused = Outcome { text: "User has cancelled".to_string(), failed: false, rejected: true };
    assert_eq!(tools.complete(refused), Request::Fold);
    assert_eq!(tools.phase, Phase::Terminated);
    assert_eq!(
        tools.results,
        vec!["[Tool result] search_online: found", "[Tool result] file_editor: User has cancelled"]
    );
}

#[test]
fn approval_for_the_session_spares_later_commands_the_question() {
    let mut tools = ToolLoop::new(false);
    let batch = response(vec![
        call("execute_command", "{\"command\": \"a\"}"),
        call("execute_command", "{\"command\": \"b\"}"),
    ]);
    assert_eq!(tools.process_tool_calls(&batch), Request::Confirm(0));
    assert_eq!(tools.decide(Confirmation::ApproveForSession), Request::Perform(0));
    assert!(tools.always);
    assert_eq!(tools.complete(outcome("A")), Request::Perform(1));
    assert_eq!(tools.complete(outcome("B")), Request::Submit);
    let again = response(vec![call("execute_command", "{\"command\": \"c\"}")]);
    assert_eq!(tools.process_tool_calls(&again), Request::Perform(0));
}

#[test]
fn single_approval_covers_one_command() {
    let mut tools = ToolLoop::new(false);
    let batch = response(vec![
        call("execute_command", "{\"command\": \"a\"}"),
        call("execute_command", "{\"command\": \"b\"}"),
    ]);
    assert_eq!(tools.process_tool_calls(&batch), Request::Confirm(0));
    assert_eq!(tools.decide(Confirmation::Approve), Request::Perform(0));
    assert_eq!(tools.complete(outcome("A")), Request::Confirm(1));
}

#[test]
fn unattended_loop_asks_nothing() {
    let mut tools = ToolLoop::new(true);
    let batch = response(vec![call("execute_command", "{\"command\": \"a\"}")]);
    assert_eq!(tools.process_tool_calls(&batch), Request::Perform(0));
    assert_eq!(tools.complete(outcome("A")), Request::Submit);
    assert_eq!(tools.results, vec!["[Tool result] execute_command: A"]);
}

#[test]
fn failures_of_outside_services_are_errors() {
    let mut tools = ToolLoop::new(true);
    let batch = response(vec![
        call("scrape_url", "{\"url\": \"u\"}"),
        call("send_email", "{\"subject\": \"s\", \"body\": \"b\"}"),
        call("stock_query", "{\"function\": \"f\", \"symbol\": \"s\"}"),
        call("execute_command", "{\"command\": \"c\"}"),
        call("search_online", "{\"query\": \"q\"}"),
    ]);
    let failed = |text: &str| Outcome { text: text.to_string(), failed: true, rejected: false };
    assert_eq!(tools.process_tool_calls(&batch), Request::Perform(0));
    assert_eq!(tools.complete(failed("e1")), Request::Perform(1));
    assert_eq!(tools.complete(failed("e2")), Request::Perform(2));
    assert_eq!(tools.complete(failed("e3")), Request::Perform(3));
    assert_eq!(tools.complete(failed("e4")), Request::Perform(4));
    assert_eq!(tools.complete(failed("e5")), Request::Submit);
    assert_eq!(
        tools.results,
        vec![
            "[Tool error] scrape_url: e1",
            "[Tool error] send_email: e2",
            "[Tool error] stock_query: e3",
            "[Tool result] execute_command: e4",
            "[Tool result] search_online: e5",
        ]
    );
}

#[test]
fn results_are_paired_with_the_tokens_of_their_invocations() {
    let mut tools = ToolLoop::new(true);
    let first = ToolCall { id: "call-a".to_string(), name: Some("mystery".to_string()), arguments: None };
    let second = ToolCall {
        id: "call-b".to_string(),
        name: Some("execute_command".to_string()),
        arguments: Some("{\"command\": \"ls\"}".to_string()),
    };
    assert_eq!(tools.process_tool_calls(&response(vec![first, second])), Request::Perform(1));
    let paired = tools.tool_results();
    assert_eq!(paired.len(), 1);
    assert_eq!(paired[0].id, "call-a");
    assert_eq!(paired[0].text, "[Tool error] unknown: Unknown function: mystery");
    assert_eq!(tools.complete(outcome("a.txt")), Request::Submit);
    let paired = tools.tool_results();
    assert_eq!(paired.len(), 2);
    assert_eq!(paired[1].id, "call-b");
    assert_eq!(paired[1].text, "[Tool result] execute_command: a.txt");
}

#[test]
fn a_failed_completion_ends_the_loop() {
    let mut tools = ToolLoop::new(false);
    let batch = response(vec![call("mystery", "{}")]);
    assert_eq!(tools.process_tool_calls(&batch), Request::Submit);
    tools.abort();
    assert_eq!(tools.phase, Phase::Terminated);
    assert_eq!(tools.results.len(), 1);
    tools.await_model();
    assert_eq!(tools.phase, Phase::AwaitingModel);
    assert_eq!(tools.process_tool_calls(&response(vec![])), Request::Stop);
}
