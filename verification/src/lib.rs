//! Terminal input handling: decoding raw, escape-sequence-laden terminal
//! bytes into key events, with the terminal's line-discipline mode set for
//! the duration of each read and restored afterwards, under three read
//! disciplines (blocking, timeout-bounded, and single-step).

use vstd::prelude::*;

pub mod keys;
pub mod streams;

use crate::keys::Key;
use crate::streams::model::Ev;
use crate::streams::{StderrLock, StdinLock, StdoutLock, StreamError, Streams};

verus! {

/// Relies on char::from_u32: `Some` exactly for Unicode scalar values (not a
/// surrogate, at most 0x10FFFF), and the returned character has that value.
pub assume_specification[ char::from_u32 ](v: u32) -> (r: Option<char>)
    ensures
        vstd::utf8::is_scalar(v) <==> r is Some,
        r matches Some(c) ==> c as u32 == v,
;

/// A struct representing the terminal interface for input and output
/// operations. Only simple operations are enabled; lock the respective
/// stream for more methods.
pub struct Terminal {
    streams: Streams,
}

/// An enum representing the target output stream, which can be either
/// standard output or standard error.
pub enum Target {
    Stdout,
    Stderr,
}

impl Terminal {
    /// Whether standard input was attached to a user-attended terminal when
    /// this `Terminal` was made. Every input surface answers by this one
    /// construction-time check.
    pub closed spec fn attended(&self) -> bool {
        self.streams.attended()
    }

    /// Creates a new instance of the `Terminal` struct, initializing the
    /// underlying input and output streams.
    pub fn new() -> Terminal {
        Terminal { streams: Streams::new() }
    }

    /// Locks the standard input stream, allowing for synchronous read
    /// operations. Returns `Some` exactly when standard input was attached
    /// to a user-attended terminal at construction, `None` otherwise.
    pub fn lock_stdin(&self) -> (r: Option<StdinLock>)
        ensures
            r is Some <==> self.attended(),
            r matches Some(l) ==> l.log() == Seq::<Ev>::empty(),
    {
        self.streams.lock_stdin()
    }

    /// Locks the standard output stream, allowing for synchronous write
    /// operations.
    pub fn lock_stdout(&self) -> (l: StdoutLock)
        ensures
            l@ == Seq::<char>::empty(),
    {
        self.streams.lock_stdout()
    }

    /// Locks the standard error stream, allowing for synchronous write
    /// operations.
    pub fn lock_stderr(&self) -> (l: StderrLock)
        ensures
            l@ == Seq::<char>::empty(),
    {
        self.streams.lock_stderr()
    }

    /// Prints a string to the specified target stream.
    pub fn print(&self, target: Target, str: &str) -> (r: Result<(), StreamError>)
        ensures
            r matches Err(e) ==> e matches StreamError::Os(_),
    {
        match target {
            Target::Stderr => {
                let mut l = self.streams.lock_stderr();
                l.print(str)
            },
            Target::Stdout => {
                let mut l = self.streams.lock_stdout();
                l.print(str)
            },
        }
    }

    /// Prints a string followed by a newline to the specified target stream.
    pub fn println(&self, target: Target, str: &str) -> (r: Result<(), StreamError>)
        ensures
            r matches Err(e) ==> e matches StreamError::Os(_),
    {
        match target {
            Target::Stderr => {
                let mut l = self.streams.lock_stderr();
                l.println(str)
            },
            Target::Stdout => {
                let mut l = self.streams.lock_stdout();
                l.println(str)
            },
        }
    }

    /// Clears the screen by sending an escape sequence, moving the cursor
    /// to the top-left corner of the terminal.
    pub fn clear(&self) -> (r: Result<(), StreamError>)
        ensures
            r matches Err(e) ==> e matches StreamError::Os(_),
    {
        let mut l = self.streams.lock_stdout();
        l.clear()
    }

    /// Hides the cursor in the terminal.
    pub fn hide_cursor(&self) -> (r: Result<(), StreamError>)
        ensures
            r matches Err(e) ==> e matches StreamError::Os(_),
    {
        let mut l = self.streams.lock_stdout();
        l.hide_cursor()
    }

    /// Shows the cursor in the terminal.
    pub fn show(&self) -> (r: Result<(), StreamError>)
        ensures
            r matches Err(e) ==> e matches StreamError::Os(_),
    {
        let mut l = self.streams.lock_stdout();
        l.show()
    }

    /// Reads a single key from the standard input stream, blocking until
    /// input arrives. The distinct `Unattended` condition — not an I/O
    /// error — comes exactly when no user-attended input stream was
    /// connected at construction.
    pub fn read_key(&self) -> (r: Result<Key, StreamError>)
        ensures
            r == Err::<Key, StreamError>(StreamError::Unattended) <==> !self.attended(),
    {
        match self.streams.lock_stdin() {
            Some(mut l) => l.read_key(),
            None => Err(StreamError::Unattended),
        }
    }

    /// Reads a line of text from the standard input stream, blocking until
    /// input arrives. The distinct `Unattended` condition — not an I/O
    /// error — comes exactly when no user-attended input stream was
    /// connected at construction.
    pub fn read_string(&self) -> (r: Result<String, StreamError>)
        ensures
            r == Err::<String, StreamError>(StreamError::Unattended) <==> !self.attended(),
    {
        match self.streams.lock_stdin() {
            Some(mut l) => l.read_string(),
            None => Err(StreamError::Unattended),
        }
    }
}

impl Default for Terminal {
    fn default() -> Terminal {
        Terminal::new()
    }
}

} // verus!
