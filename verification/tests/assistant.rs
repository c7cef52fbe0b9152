use ai_cli::assistant::Assistant;
use ai_cli::chat::Role;
use ai_cli::config::Config;
use ai_cli::invocation::{ModelResponse, Reply, ToolCall};
use ai_cli::orchestrator::{Confirmation, Outcome, Phase, Request};

fn assistant(unattended: bool) -> Assistant {
    Assistant::new(Config::load(&vec![]), "system".to_string(), unattended)
}

fn response(text: &str, calls: &[(&str, &str)]) -> ModelResponse {
    ModelResponse {
        choices: vec![Reply {
            content: Some(text.to_string()),
            tool_calls: calls
                .iter()
                .map(|(name, arguments)| ToolCall {
                    id: format!("id-{}", name),
                    name: Some(name.to_string()),
                    arguments: Some(arguments.to_string()),
                })
                .collect(),
        }],
    }
}

fn roles(a: &Assistant) -> Vec<Role> {
    a.chat.get_history().iter().map(|m| m.role).collect()
}

fn last_text(a: &Assistant) -> String {
    a.chat.get_history().last().unwrap().content.clone().unwrap()
}

#[test]
fn a_plain_answer_ends_the_turn() {
    let mut a = assistant(false);
    a.say("hello");
    assert_eq!(a.hear(&response("hi", &[])), Request::Stop);
    assert_eq!(roles(&a), vec![Role::User, Role::Assistant]);
    assert_eq!(a.tools.phase, Phase::Terminated);
    a.say("again");
    assert_eq!(a.tools.phase, Phase::AwaitingModel);
}

#[test]
fn results_reach_the_transcript_before_the_model_is_asked_again() {
    let mut a = assistant(true);
    a.say("list the files");
    let batch = response("", &[("execute_command", "{\"command\": \"ls\"}"), ("mystery", "{}")]);
    assert_eq!(a.hear(&batch), Request::Perform(0));
    assert_eq!(roles(&a), vec![Role::User, Role::Assistant]);
    let outcome = Outcome { text: "a.txt".to_string(), failed: false, rejected: false };
    assert_eq!(a.complete(outcome), Request::Submit);
    assert_eq!(roles(&a), vec![Role::User, Role::Assistant, Role::ToolResult]);
    assert_eq!(
        last_text(&a),
        "[Tool result] execute_command: a.txt\n[Tool error] unknown: Unknown function: mystery"
    );
    assert_eq!(a.hear(&response("done", &[])), Request::Stop);
    assert_eq!(
        roles(&a),
        vec![Role::User, Role::Assistant, Role::ToolResult, Role::Assistant]
    );
}

#[test]
fn a_batch_of_unknown_tools_is_answered_at_once() {
    let mut a = assistant(false);
    a.say("go");
    assert_eq!(a.hear(&response("", &[("mystery", "{}")])), Request::Submit);
    assert_eq!(roles(&a), vec![Role::User, Role::Assistant, Role::ToolResult]);
    assert_eq!(last_text(&a), "[Tool error] unknown: Unknown function: mystery");
}

#[test]
fn a_refusal_is_folded_and_not_resubmitted() {
    let mut a = assistant(false);
    a.say("clean up");
    let batch = response(
        "",
        &[
            ("scrape_url", "{\"url\": \"http://a\"}"),
            ("execute_command", "{\"command\": \"rm -rf x\"}"),
            ("search_online", "{\"query\": \"never\"}"),
        ],
    );
    assert_eq!(a.hear(&batch), Request::Perform(0));
    let page = Outcome { text: "page".to_string(), failed: false, rejected: false };
    assert_eq!(a.complete(page), Request::Confirm(1));
    assert_eq!(a.decide(Confirmation::Reject), Request::Fold);
    assert_eq!(a.tools.phase, Phase::Terminated);
    assert_eq!(a.tools.results.len(), 2);
    assert_eq!(roles(&a), vec![Role::User, Role::Assistant, Role::ToolResult]);
    assert_eq!(
        last_text(&a),
        "[Tool result] scrape_url: page\n[Tool result] execute_command: User rejected the command execution."
    );
}

#[test]
fn a_failed_completion_leaves_the_transcript_alone() {
    let mut a = assistant(false);
    a.say("hello");
    a.fail();
    assert_eq!(a.tools.phase, Phase::Terminated);
    assert_eq!(roles(&a), vec![Role::User]);
}
