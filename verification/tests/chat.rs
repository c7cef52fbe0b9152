use ai_cli::chat::{ChatManager, Message, Role};
use ai_cli::config::Config;
use ai_cli::invocation::{ModelResponse, Reply, ToolCall};
use ai_cli::registry::{build_tools, ParamKind, Preset};
use ai_cli::tools::Tool;

fn chat() -> ChatManager {
    let env = vec![
        ("TAVILY_API_KEY".to_string(), "tv".to_string()),
        ("ALPHA_VANTAGE_API_KEY".to_string(), "av".to_string()),
    ];
    ChatManager::new(Config::load(&env), "be helpful".to_string())
}

fn roles(history: &Vec<Message>) -> Vec<Role> {
    history.iter().map(|m| m.role).collect()
}

#[test]
fn new_chat_holds_only_the_system_message() {
    let chat = chat();
    assert!(chat.get_history().is_empty());
    assert_eq!(chat.system_instruction, "be helpful");
    assert_eq!(chat.get_tavily_api_key(), "tv");
    assert_eq!(chat.get_alpha_vantage_api_key(), "av");
    assert_eq!(chat.get_config().model, "gemini-2.5-flash");
}

#[test]
fn messages_are_appended_in_order() {
    let mut chat = chat();
    chat.send_message("hello");
    let response = ModelResponse {
        choices: vec![
            Reply {
                content: None,
                tool_calls: vec![ToolCall {
                    id: "c1".to_string(),
                    name: Some("execute_command".to_string()),
                    arguments: Some("{\"command\":\"ls\"}".to_string()),
                }],
            },
            Reply { content: Some("second".to_string()), tool_calls: vec![] },
        ],
    };
    chat.receive(&response);
    chat.fold_results("[Tool result] execute_command: a.txt");
    chat.send_message("thanks");
    let history = chat.get_history();
    assert_eq!(
        roles(history),
        vec![Role::User, Role::Assistant, Role::Assistant, Role::ToolResult, Role::User]
    );
    assert_eq!(history[0].content.as_deref(), Some("hello"));
    assert_eq!(history[1].content, None);
    assert_eq!(history[1].tool_calls.len(), 1);
    assert_eq!(history[1].tool_calls[0].id, "c1");
    assert_eq!(history[1].tool_calls[0].name.as_deref(), Some("execute_command"));
    assert_eq!(history[1].tool_calls[0].arguments.as_deref(), Some("{\"command\":\"ls\"}"));
    assert_eq!(history[2].content.as_deref(), Some("second"));
    assert_eq!(history[3].content.as_deref(), Some("[Tool result] execute_command: a.txt"));
    assert_eq!(history[4].content.as_deref(), Some("thanks"));
    assert!(roles(history).iter().all(|r| *r != Role::System));
}

#[test]
fn reset_keeps_the_system_message() {
    let mut chat = chat();
    chat.send_message("hello");
    chat.create_chat();
    assert!(chat.get_history().is_empty());
    assert_eq!(chat.system_instruction, "be helpful");
}

#[test]
fn cleanup_waits_only_after_a_signal() {
    let mut chat = chat();
    chat.send_message("hello");
    assert_eq!(chat.cleanup(false), 0);
    assert!(chat.get_history().is_empty());
    assert_eq!(chat.cleanup(true), 3);
}

#[test]
fn conversation_length_counts_the_bytes_of_all_texts() {
    let mut chat = chat();
    assert_eq!(chat.conversation_length(), Some(0));
    chat.send_message("h\u{e9}");
    chat.receive(&ModelResponse {
        choices: vec![
            Reply { content: None, tool_calls: vec![] },
            Reply { content: Some("four".to_string()), tool_calls: vec![] },
        ],
    });
    assert_eq!(chat.conversation_length(), Some(7));
}

#[test]
fn system_instruction_names_date_system_and_shell() {
    let text = ChatManager::build_system_instruction("2024-05-01", "Linux", "GNU bash 5.2");
    assert!(text.starts_with(
        "Today's date is 2024-05-01. You are a proactive assistant running in a sandboxed Linux terminal environment with a full set of command line utilities. The default shell is GNU bash 5.2. Your role is"
    ));
    assert!(text.ends_with("unless the query requires depth."));
}

#[test]
fn six_tools_are_described() {
    let specs = build_tools();
    let names: Vec<&str> = specs.iter().map(|s| s.name.as_str()).collect();
    assert_eq!(
        names,
        vec!["search_online", "execute_command", "send_email", "stock_query", "scrape_url", "file_editor"]
    );
    assert_eq!(specs[5].tool, Tool::FileEditor);
    let required: Vec<Vec<&str>> = specs
        .iter()
        .map(|s| s.parameters.iter().filter(|p| p.required).map(|p| p.name.as_str()).collect())
        .collect();
    assert_eq!(
        required,
        vec![
            vec!["query"],
            vec!["command"],
            vec!["subject", "body"],
            vec!["function", "symbol"],
            vec!["url"],
            vec!["subcommand", "filename"],
        ]
    );
    let editor = &specs[5];
    assert_eq!(
        editor.parameters[0].choices,
        vec!["read", "write", "search", "search_and_replace", "apply_diff"]
    );
    assert_eq!(editor.parameters.len(), 4);
    let search = &specs[0];
    assert_eq!(search.parameters[1].kind, ParamKind::Flag);
    assert!(matches!(search.parameters[1].preset, Preset::Flag(false)));
    assert!(matches!(&search.parameters[2].preset, Preset::Text(t) if t == "basic"));
    assert!(matches!(specs[3].parameters[3].preset, Preset::Integer(5)));
    assert_eq!(specs[3].parameters[3].kind, ParamKind::Integer);
    assert_eq!(specs[1].description, "Execute a system command. Use this for any shell task.");
}
