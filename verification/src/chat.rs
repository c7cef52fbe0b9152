//! The conversation with the model: its transcript, and what the model is
//! told about the assistant and its tools.

use vstd::prelude::*;
use crate::config::Config;
use crate::invocation::{ModelResponse, Reply, ToolCall};
use crate::text::push_text;

verus! {

/// Who a message of the transcript is from.
#[derive(Clone, Copy, Debug, PartialEq, Eq, Structural)]
pub enum Role {
    System,
    User,
    Assistant,
    ToolResult,
}

/// A message of the transcript.
pub struct Message {
    pub role: Role,
    /// The text of the message, if it has any.
    pub content: Option<String>,
    /// The tool calls that an assistant message carries.
    pub tool_calls: Vec<ToolCall>,
}

/// Whether a message has this role, this text and no tool calls.
pub open spec fn is_plain(m: Message, role: Role, text: Seq<char>) -> bool {
    &&& m.role == role
    &&& m.content is Some
    &&& m.content->0@ == text
    &&& m.tool_calls@.len() == 0
}

/// Whether two tool calls hold the same.
pub open spec fn same_call(a: ToolCall, b: ToolCall) -> bool {
    &&& a.id@ == b.id@
    &&& crate::text::option_text(a.name) == crate::text::option_text(b.name)
    &&& crate::text::option_text(a.arguments) == crate::text::option_text(b.arguments)
}

/// Whether a message is what the model said in `reply`.
pub open spec fn is_reply(m: Message, reply: Reply) -> bool {
    &&& m.role == Role::Assistant
    &&& crate::text::option_text(m.content) == crate::text::option_text(reply.content)
    &&& m.tool_calls@.len() == reply.tool_calls@.len()
    &&& forall|i: int|
        0 <= i < m.tool_calls@.len() ==> same_call(#[trigger] m.tool_calls@[i], reply.tool_calls@[i])
}

fn copy_text(o: &Option<String>) -> (r: Option<String>)
    ensures
        crate::text::option_text(r) == crate::text::option_text(*o),
{
    match o {
        Some(s) => Some(s.clone()),
        None => None,
    }
}

fn copy_calls(calls: &Vec<ToolCall>) -> (r: Vec<ToolCall>)
    ensures
        r@.len() == calls@.len(),
        forall|i: int| 0 <= i < r@.len() ==> same_call(#[trigger] r@[i], calls@[i]),
{
    let mut r: Vec<ToolCall> = Vec::new();
    let mut i: usize = 0;
    while i < calls.len()
        invariant
            i <= calls.len(),
            r@.len() == i,
            forall|j: int| 0 <= j < i ==> same_call(#[trigger] r@[j], calls@[j]),
        decreases calls.len() - i,
    {
        r.push(
            ToolCall {
                id: calls[i].id.clone(),
                name: copy_text(&calls[i].name),
                arguments: copy_text(&calls[i].arguments),
            },
        );
        i += 1;
    }
    r
}

/// The conversation with the model: the settings, the instruction that
/// opens every request, and the messages exchanged since the last reset.
pub struct ChatManager {
    pub config: Config,
    /// The messages after the system message, oldest first.
    pub history: Vec<Message>,
    /// The text of the system message.
    pub system_instruction: String,
}

/// How the system message opens, up to the date.
pub const BEFORE_DATE: &'static str = "Today's date is ";

/// What stands between the date and the name of the operating system.
pub const BEFORE_SYSTEM: &'static str =
    ". You are a proactive assistant running in a sandboxed ";

/// What stands between the name of the operating system and the shell.
pub const BEFORE_SHELL: &'static str =
    " terminal environment with a full set of command line utilities. The default shell is ";

/// How the system message goes on after the shell.
pub const AFTER_SHELL: &'static str =
    ". Your role is to assist with coding tasks, file operations, online searches, email sending, and shell commands efficiently and decisively. Assume the current directory (the sandbox root) is the target for all commands. Take initiative to provide solutions, execute commands, and analyze results immediately without asking for confirmation unless the action is explicitly ambiguous (e.g., multiple repos) or potentially destructive (e.g., deleting files). Use the `execute_command` tool to interact with the system but only when needed. Deliver concise, clear responses. After running a command, always summarize its output immediately and proceed with logical next steps, without waiting for the user to prompt you further. Stay within the sandbox directory. Users can run shell commands directly with `!`, and you'll receive the output to assist further. Act confidently and anticipate the user's needs to streamline their workflow. You may use md formatting to provide a more readable response. When using search tools, prioritize concise modes ('basic') to maintain efficiency unless the query requires depth.";

/// The system message's text: what the model is told about the assistant.
pub open spec fn system_instruction_text(
    today: Seq<char>,
    os_name: Seq<char>,
    shell_info: Seq<char>,
) -> Seq<char> {
    BEFORE_DATE@ + today + BEFORE_SYSTEM@ + os_name + BEFORE_SHELL@ + shell_info + AFTER_SHELL@
}

impl ChatManager {
    /// The transcript holds one system message, which comes first: no
    /// message of the history is a system message.
    pub open spec fn wf(self) -> bool {
        forall|i: int| 0 <= i < self.history@.len() ==> (#[trigger] self.history@[i]).role
            != Role::System
    }

    /// The roles of the transcript, the system message first.
    pub open spec fn roles(self) -> Seq<Role> {
        seq![Role::System] + Seq::new(self.history@.len(), |i: int| self.history@[i].role)
    }

    /// The key of the web search service.
    pub fn get_tavily_api_key(&self) -> (key: &str)
        ensures
            key@ == self.config.tavily_api_key@,
    {
        self.config.tavily_api_key.as_str()
    }

    /// The settings.
    pub fn get_config(&self) -> (config: &Config)
        ensures
            *config == self.config,
    {
        &self.config
    }

    /// The key of the stock data service.
    pub fn get_alpha_vantage_api_key(&self) -> (key: &str)
        ensures
            key@ == self.config.alpha_vantage_api_key@,
    {
        self.config.alpha_vantage_api_key.as_str()
    }

    /// The messages after the system message, oldest first.
    pub fn get_history(&self) -> (history: &Vec<Message>)
        ensures
            *history == self.history,
    {
        &self.history
    }

    /// Words the system message from the date, the name of the operating
    /// system and the description of the shell.
    pub fn build_system_instruction(today: &str, os_name: &str, shell_info: &str) -> (s: String)
        ensures
            s@ == system_instruction_text(today@, os_name@, shell_info@),
    {
        let mut s = String::new();
        push_text(&mut s, BEFORE_DATE);
        push_text(&mut s, today);
        push_text(&mut s, BEFORE_SYSTEM);
        push_text(&mut s, os_name);
        push_text(&mut s, BEFORE_SHELL);
        push_text(&mut s, shell_info);
        push_text(&mut s, AFTER_SHELL);
        s
    }

    /// A conversation that has not begun: the transcript holds the system
    /// message and nothing else.
    pub fn new(config: Config, system_instruction: String) -> (chat: Self)
        ensures
            chat.wf(),
            chat.config == config,
            chat.system_instruction == system_instruction,
            chat.history@.len() == 0,
    {
        ChatManager { config, history: Vec::new(), system_instruction }
    }

    /// Starts the conversation over: every message but the system message
    /// is dropped.
    pub fn create_chat(&mut self)
        ensures
            final(self).wf(),
            final(self).history@.len() == 0,
            final(self).system_instruction == old(self).system_instruction,
            final(self).config == old(self).config,
    {
        self.history.clear();
    }

    /// Adds a message without tool calls at the end of the transcript.
    fn append(&mut self, role: Role, text: &str)
        requires
            old(self).wf(),
            role != Role::System,
        ensures
            final(self).wf(),
            final(self).history@.len() == old(self).history@.len() + 1,
            final(self).history@.drop_last() == old(self).history@,
            is_plain(final(self).history@.last(), role, text@),
            final(self).system_instruction == old(self).system_instruction,
            final(self).config == old(self).config,
    {
        let ghost before = self.history@;
        self.history.push(
            Message { role, content: Some(text.to_owned()), tool_calls: Vec::new() },
        );
        assert(self.history@.drop_last() =~= before);
    }

    /// Takes what the human says: the message goes to the end of the
    /// transcript, and the transcript is what is to be sent to the model.
    pub fn send_message(&mut self, message: &str)
        requires
            old(self).wf(),
        ensures
            final(self).wf(),
            final(self).history@.len() == old(self).history@.len() + 1,
            final(self).history@.drop_last() == old(self).history@,
            is_plain(final(self).history@.last(), Role::User, message@),
            final(self).system_instruction == old(self).system_instruction,
            final(self).config == old(self).config,
    {
        self.append(Role::User, message);
    }

    /// Takes the results of a batch of tool invocations: they go to the end
    /// of the transcript as one message.
    pub fn fold_results(&mut self, results: &str)
        requires
            old(self).wf(),
        ensures
            final(self).wf(),
            final(self).history@.len() == old(self).history@.len() + 1,
            final(self).history@.drop_last() == old(self).history@,
            is_plain(final(self).history@.last(), Role::ToolResult, results@),
            final(self).system_instruction == old(self).system_instruction,
            final(self).config == old(self).config,
    {
        self.append(Role::ToolResult, results);
    }

    /// Takes a response of the model: its messages go to the end of the
    /// transcript, in their order.
    pub fn receive(&mut self, response: &ModelResponse)
        requires
            old(self).wf(),
        ensures
            final(self).wf(),
            final(self).history@.len() == old(self).history@.len() + response.choices@.len(),
            final(self).history@.take(old(self).history@.len() as int) == old(self).history@,
            forall|i: int|
                0 <= i < response.choices@.len() ==> is_reply(
                    #[trigger] final(self).history@[old(self).history@.len() + i],
                    response.choices@[i],
                ),
            final(self).system_instruction == old(self).system_instruction,
            final(self).config == old(self).config,
    {
        let ghost before = self.history@;
        let mut i: usize = 0;
        assert(self.history@.take(before.len() as int) =~= before);
        while i < response.choices.len()
            invariant
                i <= response.choices.len(),
                self.wf(),
                self.history@.len() == before.len() + i,
                self.history@.take(before.len() as int) == before,
                forall|j: int|
                    0 <= j < i ==> is_reply(
                        #[trigger] self.history@[before.len() + j],
                        response.choices@[j],
                    ),
                self.system_instruction == old(self).system_instruction,
                self.config == old(self).config,
            decreases response.choices.len() - i,
        {
            let ghost sofar = self.history@;
            let reply = &response.choices[i];
            self.history.push(
                Message {
                    role: Role::Assistant,
                    content: copy_text(&reply.content),
                    tool_calls: copy_calls(&reply.tool_calls),
                },
            );
            assert(self.history@.take(before.len() as int) =~= sofar.take(before.len() as int));
            assert forall|j: int| 0 <= j < i + 1 implies is_reply(
                #[trigger] self.history@[before.len() + j],
                response.choices@[j],
            ) by {
                if j < i {
                    assert(self.history@[before.len() + j] == sofar[before.len() + j]);
                }
            }
            i += 1;
        }
    }

    /// Ends the conversation: the history is dropped. The result is the
    /// number of seconds to wait before the process ends, so that a signal
    /// leaves time to restore the terminal.
    pub fn cleanup(&mut self, is_signal: bool) -> (wait: u64)
        ensures
            final(self).wf(),
            final(self).history@.len() == 0,
            final(self).system_instruction == old(self).system_instruction,
            final(self).config == old(self).config,
            wait == if is_signal {
                3u64
            } else {
                0u64
            },
    {
        self.history.clear();
        if is_signal {
            3
        } else {
            0
        }
    }

    /// The length of the conversation: the bytes of all message texts of the
    /// history together, or `None` if that exceeds what a `usize` holds.
    pub fn conversation_length(&self) -> (total: Option<usize>)
        ensures
            match total {
                Some(n) => n == content_bytes(self.history@),
                None => content_bytes(self.history@) > usize::MAX,
            },
    {
        let mut total: usize = 0;
        let mut i: usize = 0;
        assert(self.history@.take(0) =~= Seq::<Message>::empty());
        while i < self.history.len()
            invariant
                i <= self.history.len(),
                total == content_bytes(self.history@.take(i as int)),
            decreases self.history.len() - i,
        {
            proof {
                let next = self.history@.take(i + 1);
                assert(next.drop_last() =~= self.history@.take(i as int));
                assert(next.last() == self.history@[i as int]);
                lemma_content_bytes_grows(self.history@, i + 1);
            }
            match &self.history[i].content {
                Some(text) => {
                    let n = text.as_str().as_bytes().len();
                    total = match total.checked_add(n) {
                        Some(t) => t,
                        None => { return None; },
                    };
                },
                None => {},
            }
            i += 1;
        }
        assert(self.history@.take(self.history@.len() as int) =~= self.history@);
        Some(total)
    }
}

/// The bytes of all message texts together.
pub open spec fn content_bytes(history: Seq<Message>) -> nat
    decreases history.len(),
{
    if history.len() == 0 {
        0
    } else {
        content_bytes(history.drop_last()) + match history.last().content {
            Some(text) => vstd::utf8::encode_utf8(text@).len(),
            None => 0nat,
        }
    }
}

proof fn lemma_content_bytes_grows(history: Seq<Message>, k: int)
    requires
        0 <= k <= history.len(),
    ensures
        content_bytes(history.take(k)) <= content_bytes(history),
    decreases history.len() - k,
{
    if k < history.len() {
        assert(history.take(k + 1).drop_last() =~= history.take(k));
        lemma_content_bytes_grows(history, k + 1);
    } else {
        assert(history.take(k) =~= history);
    }
}

/// The transcript always opens with its one system message.
pub proof fn system_message_is_first_and_only(chat: ChatManager)
    requires
        chat.wf(),
    ensures
        chat.roles()[0] == Role::System,
        forall|i: int| 1 <= i < chat.roles().len() ==> chat.roles()[i] != Role::System,
{
    assert forall|i: int| 1 <= i < chat.roles().len() implies chat.roles()[i] != Role::System by {
        assert(chat.roles()[i] == chat.history@[i - 1].role);
    }
}

} // verus!
