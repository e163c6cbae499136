//! One stage of a pipeline.
use vstd::prelude::*;
use crate::shell_io::{Input, Output};

verus! {

/// A command with its arguments and the streams it is bound to.
#[derive(Clone, Debug, PartialEq, Eq)]
pub struct Command {
    pub name: String,
    pub args: Vec<String>,
    pub stdin: Input,
    pub stdout: Output,
    pub stderr: Output,
}

impl Command {
    /// A stage that can run: it has a name, which is its first argument,
    /// and none of its streams was handed out.
    pub open spec fn runnable(&self) -> bool {
        &&& self.name@.len() > 0
        &&& self.args@.len() > 0
        &&& self.args@[0]@ == self.name@
        &&& !(self.stdin is Taken)
        &&& !(self.stdout is Taken)
        &&& !(self.stderr is Taken)
    }

    /// A command of this name, without arguments, on the interpreter's own
    /// streams.
    pub fn new(name: String) -> (c: Command)
        ensures
            c.name == name,
            c.args@.len() == 0,
            c.stdin == Input::Stdin,
            c.stdout == Output::Stdout,
            c.stderr == Output::Stderr,
    {
        Command {
            name,
            args: Vec::new(),
            stdin: Input::Stdin,
            stdout: Output::Stdout,
            stderr: Output::Stderr,
        }
    }

    /// The command with these arguments.
    pub fn with_args(self, args: Vec<String>) -> (c: Command)
        ensures
            c == (Command { args, ..self }),
    {
        let mut c = self;
        c.args = args;
        c
    }

    /// The command, reading from `stdin`.
    pub fn with_stdin(self, stdin: Input) -> (c: Command)
        ensures
            c == (Command { stdin, ..self }),
    {
        let mut c = self;
        c.stdin = stdin;
        c
    }

    /// The command, writing its errors to `stderr`.
    pub fn with_stderr(self, stderr: Output) -> (c: Command)
        ensures
            c == (Command { stderr, ..self }),
    {
        let mut c = self;
        c.stderr = stderr;
        c
    }

    /// The command, writing to `stdout`.
    pub fn with_stdout(self, stdout: Output) -> (c: Command)
        ensures
            c == (Command { stdout, ..self }),
    {
        let mut c = self;
        c.stdout = stdout;
        c
    }

    /// Hands out the three streams of the stage, which happens once.
    pub fn take_io(&mut self) -> (io: (Input, Output, Output))
        requires
            !(old(self).stdin is Taken),
            !(old(self).stdout is Taken),
            !(old(self).stderr is Taken),
        ensures
            io.0 == old(self).stdin,
            io.1 == old(self).stdout,
            io.2 == old(self).stderr,
            final(self).name == old(self).name,
            final(self).args == old(self).args,
            final(self).stdin == Input::Taken,
            final(self).stdout == Output::Taken,
            final(self).stderr == Output::Taken,
    {
        let stdin = self.stdin.take_read();
        let stdout = self.stdout.take_write();
        let stderr = self.stderr.take_write();
        (stdin, stdout, stderr)
    }
}

} // verus!
