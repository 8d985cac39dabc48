//! The trusted boundary to the operating system: declarations of the stream
//! and terminal-attribute types, and one wrapper per OS call the library
//! relies on. Everything below an `external_body` attribute is believed, not
//! proved; each doc comment names the call relied upon.

use vstd::prelude::*;

use crate::streams::model::{wait_view, Ev};
use crate::streams::{StderrLock, StdinLock, StdoutLock, StreamError};

verus! {

#[verifier::external_type_specification]
#[verifier::external_body]
pub struct ExTermios(rustix::termios::Termios);

#[verifier::external_type_specification]
#[verifier::external_body]
pub struct ExStdin(std::io::Stdin);

#[verifier::external_type_specification]
#[verifier::external_body]
pub struct ExStdinLock<'a>(std::io::StdinLock<'a>);

#[verifier::external_type_specification]
#[verifier::external_body]
pub struct ExStdout(std::io::Stdout);

#[verifier::external_type_specification]
#[verifier::external_body]
pub struct ExStdoutLock<'a>(std::io::StdoutLock<'a>);

#[verifier::external_type_specification]
#[verifier::external_body]
pub struct ExStderr(std::io::Stderr);

#[verifier::external_type_specification]
#[verifier::external_body]
pub struct ExStderrLock<'a>(std::io::StderrLock<'a>);

/// When a terminal-attribute change takes effect, relative to pending output
/// and unread input.
#[derive(Debug, Clone, Copy, PartialEq, Eq)]
pub(crate) enum SetWhen {
    /// After pending output has drained.
    Drain,
    /// After pending output has drained, discarding unread input.
    DiscardInput,
    /// At once.
    Now,
}

/// Relies on std::io::stdin: the handle to the process's standard input.
#[verifier::external_body]
pub(crate) fn stdin_handle() -> std::io::Stdin {
    std::io::stdin()
}

/// Relies on std::io::IsTerminal::is_terminal: whether standard input is
/// attached to an interactive terminal.
#[verifier::external_body]
pub(crate) fn stdin_is_terminal(h: &std::io::Stdin) -> bool {
    std::io::IsTerminal::is_terminal(h)
}

/// Relies on std::io::stdout: the handle to the process's standard output.
#[verifier::external_body]
pub(crate) fn stdout_handle() -> std::io::Stdout {
    std::io::stdout()
}

/// Relies on std::io::stderr: the handle to the process's standard error.
#[verifier::external_body]
pub(crate) fn stderr_handle() -> std::io::Stderr {
    std::io::stderr()
}

/// Relies on std::io::Stdin::lock: takes the process-wide lock on standard
/// input.
#[verifier::external_body]
pub(crate) fn lock_stdin_handle(h: &std::io::Stdin) -> std::io::StdinLock<'static> {
    h.lock()
}

/// Relies on std::io::Stdout::lock: takes the process-wide lock on standard
/// output.
#[verifier::external_body]
pub(crate) fn lock_stdout_handle(h: &std::io::Stdout) -> std::io::StdoutLock<'static> {
    h.lock()
}

/// Relies on std::io::Stderr::lock: takes the process-wide lock on standard
/// error.
#[verifier::external_body]
pub(crate) fn lock_stderr_handle(h: &std::io::Stderr) -> std::io::StderrLock<'static> {
    h.lock()
}

/// Relies on rustix::termios::LocalModes::ICANON: the canonical-mode bit of
/// the local-mode flags, which fits the 32-bit flag word.
#[verifier::external_body]
pub(crate) fn icanon_mask() -> u32 {
    rustix::termios::LocalModes::ICANON.bits() as u32
}

/// Relies on rustix::termios::LocalModes::ECHO: the echo bit of the
/// local-mode flags, which fits the 32-bit flag word.
#[verifier::external_body]
pub(crate) fn echo_mask() -> u32 {
    rustix::termios::LocalModes::ECHO.bits() as u32
}

/// Relies on rustix::event::poll on standard input with the read-readiness
/// flag: reports whether input is readable, waiting at most the given
/// (seconds, nanoseconds), or until input arrives when `wait` is `None`.
/// The poll consumes nothing and leaves the terminal mode alone.
#[verifier::external_body]
pub(crate) fn poll_stdin(l: &mut StdinLock, wait: Option<(i64, i64)>) -> (r: Result<
    bool,
    StreamError,
>)
    ensures
        final(l).canon_mask() == old(l).canon_mask(),
        final(l).echo_mask() == old(l).echo_mask(),
        final(l).term_mode() == old(l).term_mode(),
        r matches Ok(b) ==> final(l).log() == old(l).log().push(
            Ev::Poll { wait: wait_view(wait), ready: b },
        ),
        r matches Err(e) ==> final(l).log() == old(l).log() && e matches StreamError::Os(_),
{
    let fd = rustix::stdio::stdin();
    let mut fds = [rustix::event::PollFd::new(&fd, rustix::event::PollFlags::IN)];
    let ts = match wait {
        Some((s, n)) => Some(rustix::event::Timespec { tv_sec: s, tv_nsec: n }),
        None => None,
    };
    match rustix::event::poll(&mut fds, ts.as_ref()) {
        Ok(_) => Ok(fds[0].revents().contains(rustix::event::PollFlags::IN)),
        Err(e) => Err(StreamError::Os(e.raw_os_error())),
    }
}

/// Relies on rustix::io::read on standard input: fills at most `n` bytes of
/// a fresh buffer and returns exactly the bytes the OS yielded; zero bytes
/// mean the stream ended. The terminal mode is left alone.
#[verifier::external_body]
pub(crate) fn read_stdin(l: &mut StdinLock, n: usize) -> (r: Result<Vec<u8>, StreamError>)
    ensures
        final(l).canon_mask() == old(l).canon_mask(),
        final(l).echo_mask() == old(l).echo_mask(),
        final(l).term_mode() == old(l).term_mode(),
        r matches Ok(bs) ==> bs@.len() <= n && final(l).log() == old(l).log().push(
            Ev::Read { bytes: bs@ },
        ),
        r matches Err(e) ==> final(l).log() == old(l).log() && e matches StreamError::Os(_),
{
    let mut buf = vec![0u8; n];
    match rustix::io::read(rustix::stdio::stdin(), &mut buf[..]) {
        Ok(k) => {
            buf.truncate(k);
            Ok(buf)
        },
        Err(e) => Err(StreamError::Os(e.raw_os_error())),
    }
}

/// Relies on std::io::BufRead::read_line on the stdin lock: reads one whole
/// line into an empty buffer, newline included when the stream has one.
/// On an error, bytes already read have still been consumed from the stream
/// and are dropped (the invalid-UTF-8 error in particular consumes the
/// line), so the trace then holds either nothing or one line event whose
/// text is unknown. The terminal mode is left alone.
#[verifier::external_body]
pub(crate) fn read_line_stdin(l: &mut StdinLock) -> (r: Result<String, StreamError>)
    ensures
        final(l).canon_mask() == old(l).canon_mask(),
        final(l).echo_mask() == old(l).echo_mask(),
        final(l).term_mode() == old(l).term_mode(),
        r matches Ok(s) ==> final(l).log() == old(l).log().push(Ev::Line { text: s@ }),
        r matches Err(e) ==> e matches StreamError::Os(_) && (final(l).log() == old(l).log()
            || (exists|t: Seq<char>|
            final(l).log() == old(l).log().push(Ev::Line { text: t }))),
{
    let mut buf = String::new();
    match std::io::BufRead::read_line(&mut l.inner, &mut buf) {
        Ok(_) => Ok(buf),
        Err(e) => Err(StreamError::Os(e.raw_os_error().unwrap_or(0))),
    }
}

/// Relies on rustix::termios::tcgetattr on standard input: returns the
/// terminal's current attributes, paired with the local-mode bits of that
/// same value, which fit the 32-bit flag word. The bits become the tracked
/// mode; while the mode is already
/// tracked they agree with it, since this lock has standard input — and so
/// the terminal's line discipline — to itself.
#[verifier::external_body]
pub(crate) fn query_termios(l: &mut StdinLock) -> (r: Result<
    (rustix::termios::Termios, u64),
    StreamError,
>)
    ensures
        final(l).canon_mask() == old(l).canon_mask(),
        final(l).echo_mask() == old(l).echo_mask(),
        final(l).log() == old(l).log(),
        r matches Ok(p) ==> ({
            &&& p.1 <= u32::MAX as u64
            &&& final(l).term_mode() == Some(p.1)
            &&& (old(l).term_mode() matches Some(b) ==> p.1 == b)
        }),
        r matches Err(e) ==> final(l).term_mode() == old(l).term_mode() && e matches
            StreamError::Mode(_),
{
    match rustix::termios::tcgetattr(rustix::stdio::stdin()) {
        Ok(t) => {
            let bits = t.local_modes.bits() as u64;
            Ok((t, bits))
        },
        Err(e) => Err(StreamError::Mode(e.raw_os_error())),
    }
}

/// Relies on rustix::termios::tcsetattr on standard input: applies `base`
/// with its local-mode bits replaced by `bits`, which must fit the 32-bit
/// flag word the call takes. On success those are the
/// terminal's local-mode bits — tcsetattr reports success when it could
/// carry the changes out, and line-discipline flags, unlike hardware
/// settings, are not subject to partial application — and the trace records
/// the switch, including whether unread buffered input was discarded by the
/// discard-input action. On failure the terminal may be in any mode, so the
/// tracked mode is dropped, and nothing is recorded.
#[verifier::external_body]
pub(crate) fn apply_termios(
    l: &mut StdinLock,
    base: &rustix::termios::Termios,
    bits: u64,
    when: SetWhen,
) -> (r: Result<(), StreamError>)
    requires
        bits <= u32::MAX as u64,
    ensures
        final(l).canon_mask() == old(l).canon_mask(),
        final(l).echo_mask() == old(l).echo_mask(),
        r is Ok ==> final(l).term_mode() == Some(bits) && final(l).log() == old(l).log().push(
            Ev::Mode { bits, discard: when == SetWhen::DiscardInput },
        ),
        r matches Err(e) ==> e matches StreamError::Mode(_) && final(l).log() == old(l).log()
            && final(l).term_mode() is None,
{
    let mut t = base.clone();
    t.local_modes = rustix::termios::LocalModes::from_bits_retain(bits as _);
    let when = match when {
        SetWhen::Drain => rustix::termios::OptionalActions::Drain,
        SetWhen::DiscardInput => rustix::termios::OptionalActions::Flush,
        SetWhen::Now => rustix::termios::OptionalActions::Now,
    };
    match rustix::termios::tcsetattr(rustix::stdio::stdin(), when, &t) {
        Ok(()) => Ok(()),
        Err(e) => Err(StreamError::Mode(e.raw_os_error())),
    }
}

/// Relies on rustix::termios::tcgetwinsize on standard output: the window
/// size the OS reports, as (rows, columns).
#[verifier::external_body]
pub(crate) fn query_winsize(_l: &StdoutLock) -> (r: Option<(u16, u16)>) {
    match rustix::termios::tcgetwinsize(rustix::stdio::stdout()) {
        Ok(w) => Some((w.ws_row, w.ws_col)),
        Err(_) => None,
    }
}

/// Relies on std::io::Write::write_all on the stdout lock: on success the
/// whole string was handed to the stream, in order.
#[verifier::external_body]
pub(crate) fn write_stdout(l: &mut StdoutLock, s: &str) -> (r: Result<(), StreamError>)
    ensures
        r is Ok ==> final(l)@ == old(l)@ + s@,
        r matches Err(e) ==> e matches StreamError::Os(_),
{
    match std::io::Write::write_all(&mut l.inner, s.as_bytes()) {
        Ok(()) => Ok(()),
        Err(e) => Err(StreamError::Os(e.raw_os_error().unwrap_or(0))),
    }
}

/// Relies on std::io::Write::flush on the stdout lock: pushes buffered
/// output through without changing what was written.
#[verifier::external_body]
pub(crate) fn flush_stdout(l: &mut StdoutLock) -> (r: Result<(), StreamError>)
    ensures
        final(l)@ == old(l)@,
        r matches Err(e) ==> e matches StreamError::Os(_),
{
    match std::io::Write::flush(&mut l.inner) {
        Ok(()) => Ok(()),
        Err(e) => Err(StreamError::Os(e.raw_os_error().unwrap_or(0))),
    }
}

/// Relies on std::io::Write::write_all on the stderr lock: on success the
/// whole string was handed to the stream, in order.
#[verifier::external_body]
pub(crate) fn write_stderr(l: &mut StderrLock, s: &str) -> (r: Result<(), StreamError>)
    ensures
        r is Ok ==> final(l)@ == old(l)@ + s@,
        r matches Err(e) ==> e matches StreamError::Os(_),
{
    match std::io::Write::write_all(&mut l.inner, s.as_bytes()) {
        Ok(()) => Ok(()),
        Err(e) => Err(StreamError::Os(e.raw_os_error().unwrap_or(0))),
    }
}

/// Relies on std::io::Write::flush on the stderr lock: pushes buffered
/// output through without changing what was written.
#[verifier::external_body]
pub(crate) fn flush_stderr(l: &mut StderrLock) -> (r: Result<(), StreamError>)
    ensures
        final(l)@ == old(l)@,
        r matches Err(e) ==> e matches StreamError::Os(_),
{
    match std::io::Write::flush(&mut l.inner) {
        Ok(()) => Ok(()),
        Err(e) => Err(StreamError::Os(e.raw_os_error().unwrap_or(0))),
    }
}

} // verus!
