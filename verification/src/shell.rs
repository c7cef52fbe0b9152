//! The shell of the machine: how to find out which one it is, and the
//! session in which the human runs commands by hand.

use vstd::prelude::*;
use crate::text::{
    lines_of, option_str, option_text, push_text, split_lines, text_eq, texts, to_chars, trim,
    trimmed,
};

verus! {

/// The last component of a path, as `std::path::Path::file_name` gives it,
/// if the path has one and it is valid Unicode. Paths are read by the rules
/// of the platform that the crate is built for; within one build the result
/// depends on the path alone.
pub uninterp spec fn path_file_name(path: Seq<char>) -> Option<Seq<char>>;

/// `std::path::Path::file_name`, which gives the last component of a path
/// unless the path ends in `..` or has no component. Which characters part
/// the components is a matter of the platform that the crate is built for.
#[verifier::external_body]
pub(crate) fn file_name(path: &str) -> (r: Option<String>)
    ensures
        option_text(r) == path_file_name(path@),
{
    std::path::Path::new(path).file_name().and_then(|n| n.to_str()).map(|n| n.to_string())
}

/// Whether `needle` occurs in `hay` at position `at`.
pub open spec fn occurs(hay: Seq<char>, needle: Seq<char>, at: int) -> bool {
    0 <= at && at + needle.len() <= hay.len() && hay.subrange(at, at + needle.len()) == needle
}

/// Whether `needle` occurs in `hay`.
pub open spec fn contains(hay: Seq<char>, needle: Seq<char>) -> bool {
    exists|i: int| occurs(hay, needle, i)
}

fn occurs_at(hay: &Vec<char>, at: usize, needle: &Vec<char>) -> (b: bool)
    requires
        at + needle.len() <= hay.len(),
    ensures
        b == (hay@.subrange(at as int, at + needle@.len()) == needle@),
{
    let ghost part = hay@.subrange(at as int, at + needle@.len());
    let mut j: usize = 0;
    while j < needle.len()
        invariant
            j <= needle.len(),
            at + needle.len() <= hay.len(),
            part == hay@.subrange(at as int, at + needle@.len()),
            forall|k: int| 0 <= k < j ==> part[k] == needle@[k],
        decreases needle.len() - j,
    {
        if hay[at + j] != needle[j] {
            assert(part[j as int] != needle@[j as int]);
            return false;
        }
        j += 1;
    }
    assert(part =~= needle@);
    true
}

/// Decides whether `needle` occurs in `hay`.
pub fn contains_text(hay: &str, needle: &str) -> (b: bool)
    ensures
        b == contains(hay@, needle@),
{
    let h = to_chars(hay);
    let n = to_chars(needle);
    if n.len() == 0 {
        assert(h@.subrange(0, 0) =~= n@);
        assert(occurs(h@, n@, 0));
        return true;
    }
    if n.len() > h.len() {
        return false;
    }
    let last = h.len() - n.len();
    let mut i: usize = 0;
    while i <= last
        invariant
            i <= last + 1,
            n.len() > 0,
            last + n.len() == h.len(),
            h@ == hay@,
            n@ == needle@,
            forall|k: int| 0 <= k < i ==> !occurs(h@, n@, k),
        decreases last + 1 - i,
    {
        if occurs_at(&h, i, &n) {
            assert(occurs(h@, n@, i as int));
            return true;
        }
        i += 1;
    }
    assert forall|k: int| !occurs(h@, n@, k) by {
        if 0 <= k && k + n@.len() <= h@.len() {
            assert(k < i);
        }
    }
    false
}

/// What the environment says about the shell. A variable that is not set is
/// `None`.
pub struct ShellEnv {
    /// `SHELL`.
    pub shell: Option<String>,
    /// `MSYSTEM`.
    pub msystem: Option<String>,
    /// `PSModulePath`.
    pub ps_module_path: Option<String>,
}

/// A program to ask for its version.
#[derive(Clone, Copy, Debug, PartialEq, Eq, Structural)]
pub enum Probe {
    /// No program is asked.
    Nothing,
    /// The shell of this name is run with `--version`.
    Shell(Known),
    /// `powershell` is run to print the version of its table.
    PowerShell,
}

/// The shells that are asked for their version.
#[derive(Clone, Copy, Debug, PartialEq, Eq, Structural)]
pub enum Known {
    Bash,
    Zsh,
    Fish,
    Tcsh,
    Csh,
    Ksh,
}

impl Known {
    /// The name of the shell's program.
    pub open spec fn name(self) -> Seq<char> {
        match self {
            Known::Bash => "bash"@,
            Known::Zsh => "zsh"@,
            Known::Fish => "fish"@,
            Known::Tcsh => "tcsh"@,
            Known::Csh => "csh"@,
            Known::Ksh => "ksh"@,
        }
    }

    /// The name of the shell's program.
    pub fn program(self) -> (s: &'static str)
        ensures
            s@ == self.name(),
    {
        match self {
            Known::Bash => "bash",
            Known::Zsh => "zsh",
            Known::Fish => "fish",
            Known::Tcsh => "tcsh",
            Known::Csh => "csh",
            Known::Ksh => "ksh",
        }
    }
}

/// The shell that goes by `name`, if it is one that is asked for its
/// version.
pub open spec fn known_shell(name: Seq<char>) -> Option<Known> {
    if name == "bash"@ {
        Some(Known::Bash)
    } else if name == "zsh"@ {
        Some(Known::Zsh)
    } else if name == "fish"@ {
        Some(Known::Fish)
    } else if name == "tcsh"@ {
        Some(Known::Tcsh)
    } else if name == "csh"@ {
        Some(Known::Csh)
    } else if name == "ksh"@ {
        Some(Known::Ksh)
    } else {
        None
    }
}

fn find_known(name: &str) -> (r: Option<Known>)
    ensures
        r == known_shell(name@),
{
    if text_eq(name, "bash") {
        Some(Known::Bash)
    } else if text_eq(name, "zsh") {
        Some(Known::Zsh)
    } else if text_eq(name, "fish") {
        Some(Known::Fish)
    } else if text_eq(name, "tcsh") {
        Some(Known::Tcsh)
    } else if text_eq(name, "csh") {
        Some(Known::Csh)
    } else if text_eq(name, "ksh") {
        Some(Known::Ksh)
    } else {
        None
    }
}

/// The name of the shell on a Unix system: the last component of `SHELL`,
/// and `bash` where there is none.
pub open spec fn unix_shell_name(shell: Option<Seq<char>>) -> Seq<char> {
    match shell {
        Some(path) => match path_file_name(path) {
            Some(name) => name,
            None => "bash"@,
        },
        None => "bash"@,
    }
}

/// The first line of a text, if it has one.
pub open spec fn first_line(text: Seq<char>) -> Option<Seq<char>> {
    if lines_of(text).len() > 0 {
        Some(lines_of(text)[0])
    } else {
        None
    }
}

/// The program to ask on a Unix system.
pub open spec fn unix_probe(shell: Option<Seq<char>>) -> Probe {
    match shell {
        Some(_) => match known_shell(unix_shell_name(shell)) {
            Some(known) => Probe::Shell(known),
            None => Probe::Nothing,
        },
        None => Probe::Nothing,
    }
}

/// The description of the shell on a Unix system: the first line of what
/// the shell says of its version, and the name of the shell where it was
/// not asked or said nothing.
pub open spec fn unix_shell_info(shell: Option<Seq<char>>, said: Option<Seq<char>>) -> Seq<
    char,
> {
    match (unix_probe(shell), said) {
        (Probe::Shell(_), Some(output)) => match first_line(output) {
            Some(line) => line,
            None => unix_shell_name(shell),
        },
        _ => unix_shell_name(shell),
    }
}

/// The name of the environment that `MSYSTEM` stands for.
pub open spec fn msys_name(msystem: Seq<char>) -> Seq<char> {
    if msystem == "MINGW64"@ {
        "Git Bash (MINGW64)"@
    } else if msystem == "MINGW32"@ {
        "Git Bash (MINGW32)"@
    } else if msystem == "MSYS"@ {
        "MSYS"@
    } else {
        "MSYS/MINGW"@
    }
}

/// Whether a variable is set to something.
pub open spec fn is_set(value: Option<Seq<char>>) -> bool {
    value matches Some(v) && v.len() > 0
}

/// Whether `SHELL` names a shell of the Bourne family.
pub open spec fn names_sh(shell: Option<Seq<char>>) -> bool {
    shell matches Some(path) && (contains(path, "bash"@) || contains(path, "sh"@))
}

/// The program to ask on Windows.
pub open spec fn windows_probe(env: ShellEnv) -> Probe {
    if is_set(option_text(env.msystem)) || names_sh(option_text(env.shell)) {
        Probe::Shell(Known::Bash)
    } else if is_set(option_text(env.ps_module_path)) {
        Probe::PowerShell
    } else {
        Probe::Nothing
    }
}

/// A name, followed by a dash and the first line of `said` if there is
/// one.
pub open spec fn with_version(name: Seq<char>, said: Option<Seq<char>>) -> Seq<char> {
    match said {
        Some(output) => match first_line(output) {
            Some(line) => name + " - "@ + line,
            None => name,
        },
        None => name,
    }
}

/// The description of the shell on Windows.
pub open spec fn windows_shell_info(env: ShellEnv, said: Option<Seq<char>>) -> Seq<char> {
    if is_set(option_text(env.msystem)) {
        with_version(msys_name(env.msystem->0@), said)
    } else if names_sh(option_text(env.shell)) {
        with_version("Git Bash"@, said)
    } else if is_set(option_text(env.ps_module_path)) {
        match said {
            Some(output) => "PowerShell "@ + trim(output),
            None => "PowerShell"@,
        }
    } else {
        "Command Prompt (cmd.exe)"@
    }
}

/// The program to ask for its version.
pub open spec fn probe_for(windows: bool, env: ShellEnv) -> Probe {
    if windows {
        windows_probe(env)
    } else {
        unix_probe(option_text(env.shell))
    }
}

/// The description of the shell. `said` is what the program that was asked
/// wrote, if one was asked and it succeeded.
pub open spec fn shell_info(windows: bool, env: ShellEnv, said: Option<Seq<char>>) -> Seq<char> {
    if windows {
        windows_shell_info(env, said)
    } else {
        unix_shell_info(option_text(env.shell), said)
    }
}

fn has_value(value: &Option<String>) -> (b: bool)
    ensures
        b == is_set(option_text(*value)),
{
    match value {
        Some(v) => !v.as_str().is_empty(),
        None => false,
    }
}

fn mentions_sh(shell: &Option<String>) -> (b: bool)
    ensures
        b == names_sh(option_text(*shell)),
{
    match shell {
        Some(path) => contains_text(path.as_str(), "bash") || contains_text(path.as_str(), "sh"),
        None => false,
    }
}

fn unix_name(shell: &Option<String>) -> (name: String)
    ensures
        name@ == unix_shell_name(option_text(*shell)),
{
    match shell {
        Some(path) => match file_name(path.as_str()) {
            Some(name) => name,
            None => "bash".to_owned(),
        },
        None => "bash".to_owned(),
    }
}

fn first_line_of(text: &str) -> (r: Option<String>)
    ensures
        option_text(r) == first_line(text@),
{
    let mut lines = split_lines(text);
    if lines.len() > 0 {
        let ghost all = lines@;
        let line = lines.swap_remove(0);
        assert(line@ == texts(all)[0]);
        Some(line)
    } else {
        None
    }
}

/// Says which program is to be asked for its version, if any.
pub fn shell_probe(windows: bool, env: &ShellEnv) -> (probe: Probe)
    ensures
        probe == probe_for(windows, *env),
{
    if windows {
        if has_value(&env.msystem) || mentions_sh(&env.shell) {
            Probe::Shell(Known::Bash)
        } else if has_value(&env.ps_module_path) {
            Probe::PowerShell
        } else {
            Probe::Nothing
        }
    } else {
        match &env.shell {
            Some(_) => match find_known(unix_name(&env.shell).as_str()) {
                Some(known) => Probe::Shell(known),
                None => Probe::Nothing,
            },
            None => Probe::Nothing,
        }
    }
}

fn named_with_version(name: &str, said: Option<&str>) -> (s: String)
    ensures
        s@ == with_version(name@, option_str(said)),
{
    match said {
        Some(output) => match first_line_of(output) {
            Some(line) => {
                let mut s = String::new();
                push_text(&mut s, name);
                push_text(&mut s, " - ");
                push_text(&mut s, line.as_str());
                s
            },
            None => name.to_owned(),
        },
        None => name.to_owned(),
    }
}

fn detect_windows_shell(env: &ShellEnv, said: Option<&str>) -> (s: String)
    ensures
        s@ == windows_shell_info(*env, option_str(said)),
{
    if has_value(&env.msystem) {
        let name = match &env.msystem {
            Some(m) => if text_eq(m.as_str(), "MINGW64") {
                "Git Bash (MINGW64)"
            } else if text_eq(m.as_str(), "MINGW32") {
                "Git Bash (MINGW32)"
            } else if text_eq(m.as_str(), "MSYS") {
                "MSYS"
            } else {
                "MSYS/MINGW"
            },
            None => "MSYS/MINGW",
        };
        named_with_version(name, said)
    } else if mentions_sh(&env.shell) {
        named_with_version("Git Bash", said)
    } else if has_value(&env.ps_module_path) {
        match said {
            Some(output) => {
                let mut s = String::new();
                push_text(&mut s, "PowerShell ");
                push_text(&mut s, trimmed(output).as_str());
                s
            },
            None => "PowerShell".to_owned(),
        }
    } else {
        "Command Prompt (cmd.exe)".to_owned()
    }
}

fn detect_unix_shell(env: &ShellEnv, said: Option<&str>) -> (s: String)
    ensures
        s@ == unix_shell_info(option_text(env.shell), option_str(said)),
{
    let name = unix_name(&env.shell);
    let asked = match &env.shell {
        Some(_) => find_known(name.as_str()).is_some(),
        None => false,
    };
    if asked {
        match said {
            Some(output) => match first_line_of(output) {
                Some(line) => line,
                None => name,
            },
            None => name,
        }
    } else {
        name
    }
}

/// Describes the shell of the machine. `said` is what the program named by
/// `shell_probe` wrote, if one was asked and it succeeded.
pub fn detect_shell_info(windows: bool, env: &ShellEnv, said: Option<&str>) -> (s: String)
    ensures
        s@ == shell_info(windows, *env, option_str(said)),
{
    if windows {
        detect_windows_shell(env, said)
    } else {
        detect_unix_shell(env, said)
    }
}

/// What the human's shell session does next.
pub enum ShellAction {
    /// Run this command line, show what it writes, and report it with
    /// `ShellEvent::Output`.
    Run(String),
    /// Say that reading the input failed, and leave the session.
    Complain(String),
    /// Leave the session.
    Leave,
}

/// What happened in the human's shell session.
pub enum ShellEvent {
    /// The human entered this line.
    Line(String),
    /// Reading a line failed, for this reason.
    InputFailed(String),
}

/// What the session does about a line: the one word `exit`, with or without
/// white space around it, leaves; anything else is run as it stands between
/// the white space.
pub fn interactive_shell(event: &ShellEvent) -> (action: ShellAction)
    ensures
        match *event {
            ShellEvent::InputFailed(why) => action matches ShellAction::Complain(text) && text@
                == "Input error: "@ + why@,
            ShellEvent::Line(line) => if trim(line@) == "exit"@ {
                action is Leave
            } else {
                action matches ShellAction::Run(command) && command@ == trim(line@)
            },
        },
{
    match event {
        ShellEvent::InputFailed(why) => {
            let mut text = String::new();
            push_text(&mut text, "Input error: ");
            push_text(&mut text, why.as_str());
            ShellAction::Complain(text)
        },
        ShellEvent::Line(line) => {
            let input = trimmed(line.as_str());
            if text_eq(input.as_str(), "exit") {
                ShellAction::Leave
            } else {
                ShellAction::Run(input)
            }
        },
    }
}

/// Adds a command and what it wrote to the record of the session.
pub fn record_shell_output(log: &mut String, command: &str, output: &str)
    ensures
        final(log)@ == old(log)@ + "Command: "@ + command@ + "\nOutput: "@ + output@ + "\n\n"@,
{
    push_text(log, "Command: ");
    push_text(log, command);
    push_text(log, "\nOutput: ");
    push_text(log, output);
    push_text(log, "\n\n");
}

} // verus!
