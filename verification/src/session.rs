//! A command that runs in a terminal of its own: how it is started, and the
//! order in which its session is wound up.
//!
//! While the command runs, one strand of the caller forwards the human's
//! input to the terminal and another drains what the command writes. The
//! session keeps what was drained, and sees to it that the strands are
//! joined only after the command has ended.

use vstd::prelude::*;
use crate::command::Exit;
use crate::text::texts;

verus! {

/// What surrounds a program that is confined to a directory: the whole file
/// system is visible but read-only, the directory itself is writable,
/// devices and process information are mounted, the program dies with its
/// parent and starts in the directory.
pub open spec fn confinement(root: Seq<char>) -> Seq<Seq<char>> {
    seq![
        "bwrap"@,
        "--ro-bind"@,
        "/"@,
        "/"@,
        "--bind"@,
        root,
        root,
        "--dev"@,
        "/dev"@,
        "--proc"@,
        "/proc"@,
        "--die-with-parent"@,
        "--chdir"@,
        root,
        "--"@,
    ]
}

/// The command line that runs `program` with `args` confined to `root`.
pub fn confined(root: &str, program: String, args: Vec<String>) -> (argv: Vec<String>)
    ensures
        texts(argv@) == confinement(root@) + seq![program@] + texts(args@),
{
    let mut argv: Vec<String> = Vec::new();
    argv.push("bwrap".to_owned());
    argv.push("--ro-bind".to_owned());
    argv.push("/".to_owned());
    argv.push("/".to_owned());
    argv.push("--bind".to_owned());
    argv.push(root.to_owned());
    argv.push(root.to_owned());
    argv.push("--dev".to_owned());
    argv.push("/dev".to_owned());
    argv.push("--proc".to_owned());
    argv.push("/proc".to_owned());
    argv.push("--die-with-parent".to_owned());
    argv.push("--chdir".to_owned());
    argv.push(root.to_owned());
    argv.push("--".to_owned());
    argv.push(program);
    assert(texts(argv@) =~= confinement(root@) + seq![program@]);
    let ghost head = argv@;
    let mut rest = args;
    argv.append(&mut rest);
    assert(texts(argv@) =~= texts(head) + texts(args@));
    argv
}

/// The words that hand a command line to the shell.
pub fn through_shell(command: &str) -> (argv: Vec<String>)
    ensures
        texts(argv@) == seq!["sh"@, "-c"@, command@],
{
    let mut argv: Vec<String> = Vec::new();
    argv.push("sh".to_owned());
    argv.push("-c".to_owned());
    argv.push(command.to_owned());
    assert(texts(argv@) =~= seq!["sh"@, "-c"@, command@]);
    argv
}

/// The session of a command that runs in a terminal of its own.
pub struct Session {
    /// The process of the command.
    pub pid: u32,
    /// How the command ended; `None` while it runs. The strands go on for
    /// as long as this is `None`.
    pub exit: Option<Exit>,
    /// Whether the strand that forwards input has been joined.
    pub input_joined: bool,
    /// Whether the strand that drains output has been joined.
    pub output_joined: bool,
    /// What the command has written so far.
    pub captured: Vec<u8>,
}

impl Session {
    /// No strand is joined before the command has ended.
    pub open spec fn wf(self) -> bool {
        (self.input_joined || self.output_joined) ==> self.exit is Some
    }

    /// The session is closed: the command has ended and both strands are
    /// joined.
    pub open spec fn closed(self) -> bool {
        self.exit is Some && self.input_joined && self.output_joined
    }

    /// The session of a command that has just been started.
    pub fn begin(pid: u32) -> (s: Session)
        ensures
            s.wf(),
            s.pid == pid,
            s.exit is None,
            !s.input_joined,
            !s.output_joined,
            s.captured@.len() == 0,
    {
        Session { pid, exit: None, input_joined: false, output_joined: false, captured: Vec::new() }
    }

    /// Whether the strands are to go on.
    pub fn is_alive(&self) -> (alive: bool)
        ensures
            alive == (self.exit is None),
    {
        self.exit.is_none()
    }

    /// Takes what the draining strand has read. It is kept, whether or not
    /// the command has ended, for as long as the strand is not joined.
    pub fn capture(&mut self, bytes: &Vec<u8>) -> (kept: bool)
        requires
            old(self).wf(),
        ensures
            final(self).wf(),
            kept == !old(self).output_joined,
            final(self).captured@ == if kept {
                old(self).captured@ + bytes@
            } else {
                old(self).captured@
            },
            final(self).pid == old(self).pid,
            final(self).exit == old(self).exit,
            final(self).input_joined == old(self).input_joined,
            final(self).output_joined == old(self).output_joined,
    {
        if self.output_joined {
            return false;
        }
        let mut i: usize = 0;
        while i < bytes.len()
            invariant
                i <= bytes.len(),
                self.captured@ == old(self).captured@ + bytes@.take(i as int),
                self.pid == old(self).pid,
                self.exit == old(self).exit,
                self.input_joined == old(self).input_joined,
                self.output_joined == old(self).output_joined,
            decreases bytes.len() - i,
        {
            self.captured.push(bytes[i]);
            i += 1;
            assert(bytes@.take(i as int) =~= bytes@.take(i - 1).push(bytes@[i - 1]));
        }
        assert(bytes@.take(bytes@.len() as int) =~= bytes@);
        true
    }

    /// Takes the end of the command. The first end that is reported stands.
    pub fn child_exited(&mut self, exit: Exit)
        requires
            old(self).wf(),
        ensures
            final(self).wf(),
            final(self).exit == match old(self).exit {
                Some(first) => Some(first),
                None => Some(exit),
            },
            final(self).pid == old(self).pid,
            final(self).captured == old(self).captured,
            final(self).input_joined == old(self).input_joined,
            final(self).output_joined == old(self).output_joined,
    {
        if self.exit.is_none() {
            self.exit = Some(exit);
        }
    }

    /// Joins the strand that forwards input, if the command has ended.
    pub fn join_input(&mut self) -> (joined: bool)
        requires
            old(self).wf(),
        ensures
            final(self).wf(),
            joined == (old(self).exit is Some),
            final(self).input_joined == (old(self).input_joined || joined),
            final(self).pid == old(self).pid,
            final(self).exit == old(self).exit,
            final(self).captured == old(self).captured,
            final(self).output_joined == old(self).output_joined,
    {
        if self.exit.is_some() {
            self.input_joined = true;
            true
        } else {
            false
        }
    }

    /// Joins the strand that drains output, if the command has ended.
    pub fn join_output(&mut self) -> (joined: bool)
        requires
            old(self).wf(),
        ensures
            final(self).wf(),
            joined == (old(self).exit is Some),
            final(self).output_joined == (old(self).output_joined || joined),
            final(self).pid == old(self).pid,
            final(self).exit == old(self).exit,
            final(self).captured == old(self).captured,
            final(self).input_joined == old(self).input_joined,
    {
        if self.exit.is_some() {
            self.output_joined = true;
            true
        } else {
            false
        }
    }

    /// Closes the session: gives everything that the command wrote and how
    /// it ended, once the command has ended and both strands are joined.
    /// Before that the session is handed back as it is.
    pub fn finish(self) -> (r: Result<(Vec<u8>, Exit), Session>)
        requires
            self.wf(),
        ensures
            match r {
                Ok((captured, exit)) => self.closed() && captured == self.captured && Some(exit)
                    == self.exit,
                Err(same) => !self.closed() && same == self,
            },
    {
        if self.input_joined && self.output_joined {
            match self.exit {
                Some(exit) => Ok((self.captured, exit)),
                None => Err(self),
            }
        } else {
            Err(self)
        }
    }
}

} // verus!
