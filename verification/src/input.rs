//! What the human types at the prompt, and what becomes of it.

use vstd::prelude::*;
use crate::text::{
    has_prefix, lowercase, push_decimal, push_range, push_text, starts_with, text_eq, to_chars,
    to_lowercase, trim, trimmed, decimal,
};

verus! {

/// What a line of the human asks for.
pub enum UserInput {
    /// To leave.
    Exit,
    /// To start the conversation over.
    Clear,
    /// Nothing: the line is empty.
    Empty,
    /// To enter the shell session.
    Shell,
    /// To run this command line.
    Command(String),
    /// To say this to the model.
    Message(String),
}

/// `UserInput` as a mathematical value.
pub enum UserInputView {
    Exit,
    Clear,
    Empty,
    Shell,
    Command(Seq<char>),
    Message(Seq<char>),
}

impl View for UserInput {
    type V = UserInputView;

    open spec fn view(&self) -> UserInputView {
        match *self {
            UserInput::Exit => UserInputView::Exit,
            UserInput::Clear => UserInputView::Clear,
            UserInput::Empty => UserInputView::Empty,
            UserInput::Shell => UserInputView::Shell,
            UserInput::Command(command) => UserInputView::Command(command@),
            UserInput::Message(message) => UserInputView::Message(message@),
        }
    }
}

/// What a line asks for. The words `exit` and `clear` count in any case.
/// A line that begins with an exclamation mark is for the shell: the mark
/// alone enters the shell session, and anything after it is a command.
pub open spec fn input_kind(line: Seq<char>) -> UserInputView {
    let lower = lowercase(line);
    if lower == "exit"@ {
        UserInputView::Exit
    } else if lower == "clear"@ {
        UserInputView::Clear
    } else if lower.len() == 0 {
        UserInputView::Empty
    } else if line.len() > 0 && line[0] == '!' {
        if trim(line.skip(1)).len() == 0 {
            UserInputView::Shell
        } else {
            UserInputView::Command(trim(line.skip(1)))
        }
    } else {
        UserInputView::Message(line)
    }
}

/// Says what a line of the human asks for.
pub fn handle_user_input(user_input: &str) -> (kind: UserInput)
    ensures
        kind@ == input_kind(user_input@),
{
    let lower = to_lowercase(user_input);
    if text_eq(lower.as_str(), "exit") {
        return UserInput::Exit;
    }
    if text_eq(lower.as_str(), "clear") {
        return UserInput::Clear;
    }
    if lower.as_str().is_empty() {
        return UserInput::Empty;
    }
    let v = to_chars(user_input);
    if v.len() > 0 && v[0] == '!' {
        let mut rest = String::new();
        push_range(&mut rest, &v, 1, v.len());
        assert(v@.subrange(1, v@.len() as int) =~= v@.skip(1));
        let command = trimmed(rest.as_str());
        if command.as_str().is_empty() {
            UserInput::Shell
        } else {
            UserInput::Command(command)
        }
    } else {
        UserInput::Message(user_input.to_owned())
    }
}

/// Whether a line is kept in the history of the prompt: it is, unless it
/// is empty or begins with `exit` or `clear`, in any case.
pub open spec fn is_remembered(line: Seq<char>) -> bool {
    line.len() > 0 && !starts_with(lowercase(line), "exit"@) && !starts_with(
        lowercase(line),
        "clear"@,
    )
}

/// Decides whether a line is kept in the history of the prompt.
pub fn remembered(user_input: &str) -> (keep: bool)
    ensures
        keep == is_remembered(user_input@),
{
    if user_input.is_empty() {
        return false;
    }
    let lower = to_chars(to_lowercase(user_input).as_str());
    !has_prefix(&lower, &to_chars("exit")) && !has_prefix(&lower, &to_chars("clear"))
}

/// What the model is told after the human has run a command by hand.
pub fn command_message(command: &str, output: &str) -> (s: String)
    ensures
        s@ == "User ran command '!"@ + command@ + "' with output: "@ + output@,
{
    let mut s = String::new();
    push_text(&mut s, "User ran command '!");
    push_text(&mut s, command);
    push_text(&mut s, "' with output: ");
    push_text(&mut s, output);
    s
}

/// What the model is told after the human has left the shell session.
pub fn shell_message(output: &str) -> (s: String)
    ensures
        s@ == "User ran interactive shell session with output:\n"@ + output@,
{
    let mut s = String::new();
    push_text(&mut s, "User ran interactive shell session with output:\n");
    push_text(&mut s, output);
    s
}

/// The prompt: the length of the conversation in brackets.
pub fn prompt(length: usize) -> (s: String)
    ensures
        s@ == "["@ + decimal(length as nat) + "] > "@,
{
    let mut s = String::new();
    push_text(&mut s, "[");
    push_decimal(&mut s, length as u128);
    push_text(&mut s, "] > ");
    s
}

} // verus!
