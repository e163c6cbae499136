//! Stream bindings of a pipeline stage, as plain values.
use vstd::prelude::*;
use vstd::string::StringExecFns;

verus! {

/// How a redirection target is opened. Either way the file is created if
/// it is absent.
#[derive(Clone, Copy, Debug, PartialEq, Eq, Structural)]
pub enum Mode {
    /// The file is emptied first.
    Truncate,
    /// What is written follows what the file holds.
    Append,
}

/// Where a stage reads from. `Taken` marks a binding that was handed out.
#[derive(Clone, Debug, PartialEq, Eq)]
pub enum Input {
    /// The file at this path.
    File(String),
    /// The read end of the pipe with this number.
    Pipe(usize),
    /// The interpreter's own standard input.
    Stdin,
    /// The binding was handed out.
    Taken,
}

/// Where a stage writes to. `Taken` marks a binding that was handed out.
#[derive(Clone, Debug, PartialEq, Eq)]
pub enum Output {
    /// The file at this path, opened in the given mode.
    File(String, Mode),
    /// The write end of the pipe with this number.
    Pipe(usize),
    /// The interpreter's own standard output.
    Stdout,
    /// The interpreter's own standard error.
    Stderr,
    /// The binding was handed out.
    Taken,
}

impl Mode {
    /// What a file holds after `text` was written to it in this mode, where
    /// it held `before` (nothing, if it was absent).
    pub open spec fn contents(self, before: Seq<char>, text: Seq<char>) -> Seq<char> {
        match self {
            Mode::Truncate => text,
            Mode::Append => before + text,
        }
    }

    /// Computes [`Mode::contents`].
    pub fn written(self, before: &str, text: &str) -> (r: String)
        ensures
            r@ == self.contents(before@, text@),
    {
        match self {
            Mode::Truncate => String::from_str(text),
            Mode::Append => String::from_str(before).concat(text),
        }
    }
}

/// Writing the same text twice with truncation leaves the text once.
pub proof fn truncate_is_idempotent(before: Seq<char>, text: Seq<char>)
    ensures
        Mode::Truncate.contents(Mode::Truncate.contents(before, text), text) == text,
        Mode::Truncate.contents(before, text) == text,
{
}

/// A truncating write followed by an appending one leaves the first text
/// followed by the second, whatever the file held.
pub proof fn append_follows_truncate(before: Seq<char>, first: Seq<char>, second: Seq<char>)
    ensures
        Mode::Append.contents(Mode::Truncate.contents(before, first), second) == first + second,
{
}

impl Input {
    /// Hands the binding out and leaves `Taken` behind.
    pub fn take(&mut self) -> (r: Input)
        ensures
            r == *old(self),
            *final(self) == Input::Taken,
    {
        let mut r = Input::Taken;
        std::mem::swap(self, &mut r);
        r
    }

    /// Hands out a binding that can be read from. One that was handed out
    /// before cannot be read again.
    pub fn take_read(&mut self) -> (r: Input)
        requires
            !(*old(self) is Taken),
        ensures
            r == *old(self),
            !(r is Taken),
            *final(self) == Input::Taken,
    {
        self.take()
    }
}

impl Output {
    /// Hands the binding out and leaves `Taken` behind.
    pub fn take(&mut self) -> (r: Output)
        ensures
            r == *old(self),
            *final(self) == Output::Taken,
    {
        let mut r = Output::Taken;
        std::mem::swap(self, &mut r);
        r
    }

    /// Hands out a binding that can be written to. One that was handed out
    /// before cannot be written again.
    pub fn take_write(&mut self) -> (r: Output)
        requires
            !(*old(self) is Taken),
        ensures
            r == *old(self),
            !(r is Taken),
            *final(self) == Output::Taken,
    {
        self.take()
    }
}

} // verus!
