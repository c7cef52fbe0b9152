//! Running a command line: everything about it except the running.
//!
//! A command line is split into words before anything is started. Whoever
//! starts the program hands back how it ended, and gets the text to report.

use vstd::prelude::*;
use crate::text::{decimal, is_blank, push_decimal, push_text, texts, trim, trimmed};

verus! {

/// The words of a command line as a Unix shell would split it, with quotes
/// and escapes removed and nothing expanded. `None` for a command line with
/// a quote that is not closed.
pub uninterp spec fn shell_words(command: Seq<char>) -> Option<Seq<Seq<char>>>;

/// `shell_words::split`. Believed: the result is the list of words, and a
/// command line with an unclosed quote gives the crate's one error, which
/// reads "missing closing quote".
#[verifier::external_body]
pub(crate) fn shell_split(command: &str) -> (r: Result<Vec<String>, String>)
    ensures
        match r {
            Ok(words) => shell_words(command@) == Some(texts(words@)),
            Err(e) => shell_words(command@) is None && e@ == "missing closing quote"@,
        },
{
    shell_words::split(command).map_err(|e| e.to_string())
}

/// What is to be done about a command line.
pub enum CommandPlan {
    /// Nothing is run; this text is the result.
    Reply(String),
    /// Nothing is run; the command line is refused with this message.
    Refuse(String),
    /// This program is to be run with these arguments, in the confinement
    /// root.
    Spawn { program: String, args: Vec<String> },
}

/// `CommandPlan` as a mathematical value.
pub enum CommandPlanView {
    Reply(Seq<char>),
    Refuse(Seq<char>),
    Spawn { program: Seq<char>, args: Seq<Seq<char>> },
}

impl View for CommandPlan {
    type V = CommandPlanView;

    open spec fn view(&self) -> CommandPlanView {
        match *self {
            CommandPlan::Reply(text) => CommandPlanView::Reply(text@),
            CommandPlan::Refuse(text) => CommandPlanView::Refuse(text@),
            CommandPlan::Spawn { program, args } => CommandPlanView::Spawn {
                program: program@,
                args: texts(args@),
            },
        }
    }
}

/// What is to be done about a command line: a blank one, or one without
/// words, is answered without running anything; one that cannot be split is
/// refused; otherwise the first word is the program and the rest are its
/// arguments.
pub open spec fn command_plan(command: Seq<char>) -> CommandPlanView {
    if trim(command).len() == 0 {
        CommandPlanView::Reply("Error: No command provided"@)
    } else {
        match shell_words(command) {
            None => CommandPlanView::Refuse("Failed to parse command: missing closing quote"@),
            Some(words) => if words.len() == 0 {
                CommandPlanView::Reply("Error: No command provided"@)
            } else {
                CommandPlanView::Spawn { program: words[0], args: words.skip(1) }
            },
        }
    }
}

/// Decides what is to be done about a command line. Nothing is started
/// here, and a command line that cannot be split is refused before anything
/// is.
pub fn execute_command(command: &str) -> (plan: CommandPlan)
    ensures
        plan@ == command_plan(command@),
{
    if is_blank(command) {
        return CommandPlan::Reply("Error: No command provided".to_owned());
    }
    match shell_split(command) {
        Err(why) => {
            let mut message = String::new();
            push_text(&mut message, "Failed to parse command: ");
            push_text(&mut message, why.as_str());
            proof {
                reveal_strlit("Failed to parse command: missing closing quote");
                reveal_strlit("Failed to parse command: ");
                reveal_strlit("missing closing quote");
                assert(message@ =~= "Failed to parse command: missing closing quote"@);
            }
            CommandPlan::Refuse(message)
        },
        Ok(mut words) => {
            if words.len() == 0 {
                CommandPlan::Reply("Error: No command provided".to_owned())
            } else {
                let ghost all = words@;
                let program = words.remove(0);
                assert(texts(words@) =~= texts(all).skip(1));
                CommandPlan::Spawn { program, args: words }
            }
        },
    }
}

/// How a process ended.
#[derive(Clone, Copy, Debug, PartialEq, Eq, Structural)]
pub enum Exit {
    /// It exited with this code.
    Code(i32),
    /// A signal ended it.
    Signal,
}

/// What became of a program that was to be run.
pub enum Ran {
    /// It could not be started, for this reason.
    NotStarted(String),
    /// It ran and ended, having written this much.
    Exited { exit: Exit, stdout: String, stderr: String },
}

/// The report of a command that ran without writing anything.
pub open spec fn no_output() -> Seq<char> {
    "Command executed (no output)"@
}

/// The report of a command that did not exit with code zero: the command
/// line, and what the command wrote to its error stream, trimmed, if that
/// is anything.
pub open spec fn failure_report(command: Seq<char>, stderr: Seq<char>) -> Seq<char> {
    "Command '"@ + command + "' exited with non-zero status"@ + if trim(stderr).len() > 0 {
        ": "@ + trim(stderr)
    } else {
        Seq::<char>::empty()
    }
}

/// The report of a command, given what became of it.
pub open spec fn report(command: Seq<char>, ran: Ran) -> Result<Seq<char>, Seq<char>> {
    match ran {
        Ran::NotStarted(why) => Err("Failed to run command: "@ + why@),
        Ran::Exited { exit, stdout, stderr } => if exit == Exit::Code(0) {
            if stdout@.len() == 0 && stderr@.len() == 0 {
                Ok(no_output())
            } else {
                Ok(stdout@ + stderr@)
            }
        } else {
            Ok(failure_report(command, stderr@))
        },
    }
}

/// Words what became of a command. A command that succeeds without output
/// is reported with a text of its own, so that silence is told from failure.
pub fn command_report(command: &str, ran: &Ran) -> (r: Result<String, String>)
    ensures
        match r {
            Ok(s) => report(command@, *ran) == Ok::<Seq<char>, Seq<char>>(s@),
            Err(e) => report(command@, *ran) == Err::<Seq<char>, Seq<char>>(e@),
        },
{
    match ran {
        Ran::NotStarted(why) => {
            let mut e = String::new();
            push_text(&mut e, "Failed to run command: ");
            push_text(&mut e, why.as_str());
            Err(e)
        },
        Ran::Exited { exit, stdout, stderr } => {
            let success = match exit {
                Exit::Code(code) => *code == 0,
                Exit::Signal => false,
            };
            if success {
                if stdout.as_str().is_empty() && stderr.as_str().is_empty() {
                    Ok("Command executed (no output)".to_owned())
                } else {
                    let mut s = String::new();
                    push_text(&mut s, stdout.as_str());
                    push_text(&mut s, stderr.as_str());
                    Ok(s)
                }
            } else {
                let mut s = String::new();
                push_text(&mut s, "Command '");
                push_text(&mut s, command);
                push_text(&mut s, "' exited with non-zero status");
                let errors = trimmed(stderr.as_str());
                if !errors.as_str().is_empty() {
                    push_text(&mut s, ": ");
                    push_text(&mut s, errors.as_str());
                    assert(s@ =~= failure_report(command@, stderr@));
                } else {
                    assert(s@ =~= failure_report(command@, stderr@));
                }
                Ok(s)
            }
        },
    }
}

/// The report of silence is never the report of a failure.
pub proof fn silence_differs_from_failure(command: Seq<char>, stderr: Seq<char>)
    ensures
        no_output() != failure_report(command, stderr),
        no_output().len() > 0,
{
    reveal_strlit("Command executed (no output)");
    reveal_strlit("Command '");
    let failure = failure_report(command, stderr);
    assert(no_output()[8] == 'e');
    assert(failure[8] == '\'');
}

/// Why a command that ran in a terminal of its own counts as failed.
pub enum ExecError {
    /// It exited with a code other than zero.
    Failed { command: String, code: i32 },
    /// A signal ended it.
    Killed { command: String },
}

/// An exit code in decimal, with a minus sign if it is negative.
pub open spec fn exit_code_text(code: int) -> Seq<char> {
    if code < 0 {
        "-"@ + decimal((-code) as nat)
    } else {
        decimal(code as nat)
    }
}

impl ExecError {
    /// The words for the failure: the command line, and the exit code or
    /// the fact that a signal ended the command.
    pub open spec fn text(self) -> Seq<char> {
        match self {
            ExecError::Failed { command, code } => "Command '"@ + command@
                + "' exited with status "@ + exit_code_text(code as int),
            ExecError::Killed { command } => "Command '"@ + command@
                + "' was terminated by a signal"@,
        }
    }

    /// Words the failure.
    pub fn message(&self) -> (s: String)
        ensures
            s@ == self.text(),
    {
        let mut s = String::new();
        push_text(&mut s, "Command '");
        match self {
            ExecError::Failed { command, code } => {
                push_text(&mut s, command.as_str());
                push_text(&mut s, "' exited with status ");
                let ghost before = s@;
                if *code < 0 {
                    push_text(&mut s, "-");
                    push_decimal(&mut s, (-(*code as i64)) as u128);
                    assert(s@ =~= before + exit_code_text(*code as int));
                } else {
                    push_decimal(&mut s, *code as u128);
                }
            },
            ExecError::Killed { command } => {
                push_text(&mut s, command.as_str());
                push_text(&mut s, "' was terminated by a signal");
            },
        }
        s
    }
}

/// The result of a command that ran in a terminal of its own: what it
/// wrote, if it exited with code zero; otherwise the command line with the
/// code, or with the fact that a signal ended it.
pub fn interactive_result(command: &str, captured: String, exit: Exit) -> (r: Result<
    String,
    ExecError,
>)
    ensures
        match exit {
            Exit::Code(code) => if code == 0 {
                r == Ok::<String, ExecError>(captured)
            } else {
                r matches Err(ExecError::Failed { command: c, code: n }) && c@ == command@ && n
                    == code
            },
            Exit::Signal => r matches Err(ExecError::Killed { command: c }) && c@ == command@,
        },
{
    match exit {
        Exit::Code(code) => if code == 0 {
            Ok(captured)
        } else {
            Err(ExecError::Failed { command: command.to_owned(), code })
        },
        Exit::Signal => Err(ExecError::Killed { command: command.to_owned() }),
    }
}

} // verus!
