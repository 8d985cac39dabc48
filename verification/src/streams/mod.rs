//! The standard streams: locked handles for input, output and error, the
//! escape-sequence emitters of the output side, and the read disciplines of
//! the input side.

use vstd::prelude::*;
use vstd::string::StringExecFns;

use crate::keys::Key;
use crate::streams::config::{
    bracket_inner, echo_line_read_flags, key_read_flags, line_read_flags, mode_bracket,
    restored_bits, spec_apply_flags, Config, Flag,
};
use crate::streams::model::{later_polls_immediate, line_ev, mode_ev, poll_ev, spec_wait, Ev};
use crate::streams::read::{
    chunk_wait, eof_end, interrupted_end, key_success_trace, lemma_trace_extend, process_key,
    read_line_ready, trace_delta, unready_polls,
};

pub mod model;
pub mod config;
pub mod read;
mod unix;

verus! {

/// Why a stream operation could not complete.
#[derive(Debug, Clone, Copy, PartialEq, Eq)]
pub enum StreamError {
    /// Standard input is not attached to a user-attended terminal.
    Unattended,
    /// A readiness, read or write call failed, with the OS error code.
    Os(i32),
    /// A ready stream yielded zero bytes: the input stream has ended.
    Eof,
    /// The interrupt byte was read: the user canceled the read.
    Interrupted,
    /// A terminal mode query or change failed, with the OS error code.
    /// When a change back to the captured mode fails, the terminal is left
    /// in an unknown mode; there is no safe mode to fall back to.
    Mode(i32),
}

// This struct represents the standard streams: stderr, stdout, and stdin.
pub(crate) struct Streams {
    // The standard error stream.
    stderr: std::io::Stderr,
    // The standard output stream.
    stdout: std::io::Stdout,
    // The standard input stream, if available (i.e., in a user-attended terminal).
    stdin: Option<std::io::Stdin>,
}

/// A wrapper for the standard input lock, allowing for synchronous read
/// operations. It carries the model of everything observable about the
/// stream: the terminal's local-mode bits and the trace of polls and reads.
pub struct StdinLock {
    inner: std::io::StdinLock<'static>,
    icanon: u32,
    echo: u32,
    mode: Ghost<Option<u64>>,
    events: Ghost<Seq<Ev>>,
}

impl StdinLock {
    /// The local-mode bits the terminal currently has, once they have been
    /// queried; `None` while they are not yet tracked.
    pub closed spec fn term_mode(&self) -> Option<u64> {
        self.mode@
    }

    /// The observable actions this lock has performed on the input stream.
    pub closed spec fn log(&self) -> Seq<Ev> {
        self.events@
    }

    /// The canonical-mode bit of the local-mode flags. It fits the 32-bit
    /// flag word the OS calls take.
    pub closed spec fn canon_mask(&self) -> u64 {
        self.icanon as u64
    }

    /// The echo bit of the local-mode flags. It fits the 32-bit flag word
    /// the OS calls take.
    pub closed spec fn echo_mask(&self) -> u64 {
        self.echo as u64
    }
}

/// A wrapper for the standard output lock. Its view is the sequence of
/// characters written to the stream since the lock was taken.
pub struct StdoutLock {
    inner: std::io::StdoutLock<'static>,
    written: Ghost<Seq<char>>,
}

impl View for StdoutLock {
    type V = Seq<char>;

    closed spec fn view(&self) -> Seq<char> {
        self.written@
    }
}

/// A wrapper for the standard error lock. Its view is the sequence of
/// characters written to the stream since the lock was taken.
pub struct StderrLock {
    inner: std::io::StderrLock<'static>,
    written: Ghost<Seq<char>>,
}

impl View for StderrLock {
    type V = Seq<char>;

    closed spec fn view(&self) -> Seq<char> {
        self.written@
    }
}

impl Streams {
    // Creates a new Streams instance with the standard input, output, and error streams.
    pub(crate) fn new() -> Streams {
        let stderr = unix::stderr_handle();
        let stdout = unix::stdout_handle();
        let stdin_h = unix::stdin_handle();
        let stdin = if unix::stdin_is_terminal(&stdin_h) {
            Some(stdin_h)
        } else {
            None
        };
        Streams { stderr, stdout, stdin }
    }

    // Locks the standard output stream, providing a controlled interface for writing.
    pub(crate) fn lock_stdout(&self) -> (l: StdoutLock)
        ensures
            l@ == Seq::<char>::empty(),
    {
        StdoutLock { inner: unix::lock_stdout_handle(&self.stdout), written: Ghost(Seq::empty()) }
    }

    // Locks the standard error stream, providing a controlled interface for writing.
    pub(crate) fn lock_stderr(&self) -> (l: StderrLock)
        ensures
            l@ == Seq::<char>::empty(),
    {
        StderrLock { inner: unix::lock_stderr_handle(&self.stderr), written: Ghost(Seq::empty()) }
    }

    /// Whether standard input was attached to a user-attended terminal
    /// when these streams were set up.
    pub closed spec fn attended(&self) -> bool {
        self.stdin is Some
    }

    // Attempts to lock the standard input stream if it is associated with a
    // user-attended terminal.
    pub(crate) fn lock_stdin(&self) -> (r: Option<StdinLock>)
        ensures
            r is Some <==> self.attended(),
            r matches Some(l) ==> l.log() == Seq::<Ev>::empty(),
    {
        match &self.stdin {
            Some(h) => Some(
                StdinLock {
                    inner: unix::lock_stdin_handle(h),
                    icanon: unix::icanon_mask(),
                    echo: unix::echo_mask(),
                    mode: Ghost(None),
                    events: Ghost(Seq::empty()),
                },
            ),
            None => None,
        }
    }
}

impl Default for Streams {
    fn default() -> Streams {
        Streams::new()
    }
}

/// The decimal digit `d` denotes.
pub open spec fn spec_digit(d: int) -> char {
    if d == 0 {
        '0'
    } else if d == 1 {
        '1'
    } else if d == 2 {
        '2'
    } else if d == 3 {
        '3'
    } else if d == 4 {
        '4'
    } else if d == 5 {
        '5'
    } else if d == 6 {
        '6'
    } else if d == 7 {
        '7'
    } else if d == 8 {
        '8'
    } else {
        '9'
    }
}

/// The decimal numeral of `n`, most significant digit first, no sign and no
/// leading zeros (a single `0` for zero).
pub open spec fn spec_decimal(n: int) -> Seq<char>
    recommends
        n >= 0,
    decreases n,
{
    if n < 10 {
        seq![spec_digit(n)]
    } else {
        spec_decimal(n / 10).push(spec_digit(n % 10))
    }
}

/// The one-character numeral of a single digit.
fn digit_str(d: usize) -> (s: &'static str)
    requires
        d < 10,
    ensures
        s@ == seq![spec_digit(d as int)],
{
    match d {
        0 => {
            proof {
                reveal_strlit("0");
                assert("0"@ =~= seq![spec_digit(0)]);
            }
            "0"
        },
        1 => {
            proof {
                reveal_strlit("1");
                assert("1"@ =~= seq![spec_digit(1)]);
            }
            "1"
        },
        2 => {
            proof {
                reveal_strlit("2");
                assert("2"@ =~= seq![spec_digit(2)]);
            }
            "2"
        },
        3 => {
            proof {
                reveal_strlit("3");
                assert("3"@ =~= seq![spec_digit(3)]);
            }
            "3"
        },
        4 => {
            proof {
                reveal_strlit("4");
                assert("4"@ =~= seq![spec_digit(4)]);
            }
            "4"
        },
        5 => {
            proof {
                reveal_strlit("5");
                assert("5"@ =~= seq![spec_digit(5)]);
            }
            "5"
        },
        6 => {
            proof {
                reveal_strlit("6");
                assert("6"@ =~= seq![spec_digit(6)]);
            }
            "6"
        },
        7 => {
            proof {
                reveal_strlit("7");
                assert("7"@ =~= seq![spec_digit(7)]);
            }
            "7"
        },
        8 => {
            proof {
                reveal_strlit("8");
                assert("8"@ =~= seq![spec_digit(8)]);
            }
            "8"
        },
        _ => {
            proof {
                reveal_strlit("9");
                assert("9"@ =~= seq![spec_digit(9)]);
            }
            "9"
        },
    }
}

/// Writes `n` as its decimal numeral.
pub fn decimal_string(n: usize) -> (s: String)
    ensures
        s@ == spec_decimal(n as int),
    decreases n,
{
    if n < 10 {
        String::from_str(digit_str(n))
    } else {
        proof {
            assert(n / 10 < n) by (nonlinear_arith)
                requires
                    n >= 10,
            ;
        }
        let mut s = decimal_string(n / 10);
        s.append(digit_str(n % 10));
        s
    }
}

/// What the clear-screen control sequence writes: clear all, cursor home.
pub open spec fn clear_screen_seq() -> Seq<char> {
    "\r\x1b[2J\r\x1b[H"@
}

/// What the clear-to-end control sequence writes.
pub open spec fn clear_to_end_seq() -> Seq<char> {
    "\x1b[J"@
}

/// What the clear-to-beginning control sequence writes.
pub open spec fn clear_to_beginning_seq() -> Seq<char> {
    "\x1b[1J"@
}

/// What the clear-line-to-end control sequence writes.
pub open spec fn clear_line_to_end_seq() -> Seq<char> {
    "\x1b[K"@
}

/// What the clear-line-to-beginning control sequence writes.
pub open spec fn clear_line_to_beginning_seq() -> Seq<char> {
    "\x1b[1K"@
}

/// What the hide-cursor control sequence writes.
pub open spec fn hide_cursor_seq() -> Seq<char> {
    "\x1b[?25l"@
}

/// What the show-cursor control sequence writes.
pub open spec fn show_cursor_seq() -> Seq<char> {
    "\x1b[?25h"@
}

/// What the absolute cursor-move control sequence writes for (rows, columns).
pub open spec fn move_cursor_seq(rows: int, cols: int) -> Seq<char> {
    "\x1b["@ + spec_decimal(rows) + ";"@ + spec_decimal(cols) + "H"@
}

/// What a relative cursor-move control sequence writes: the count then the
/// direction's final byte.
pub open spec fn cursor_step_seq(n: int, dir: Seq<char>) -> Seq<char> {
    "\x1b["@ + spec_decimal(n) + dir
}

/// Accepts or rejects an OS window-size report: a size is available
/// exactly when a report came and both its dimensions are positive; the OS
/// reporting zero in either dimension means the size is unavailable.
pub fn accept_dims(w: Option<(u16, u16)>) -> (r: Option<(usize, usize)>)
    ensures
        r == (match w {
            Some(p) => if p.0 > 0 && p.1 > 0 {
                Some((p.0 as usize, p.1 as usize))
            } else {
                None::<(usize, usize)>
            },
            None => None::<(usize, usize)>,
        }),
{
    match w {
        Some((rows, cols)) => {
            if rows > 0 && cols > 0 {
                Some((rows as usize, cols as usize))
            } else {
                None
            }
        },
        None => None,
    }
}

impl StdoutLock {
    /// Prints the specified string to the standard output.
    pub fn print(&mut self, str: &str) -> (r: Result<(), StreamError>)
        ensures
            r matches Err(e) ==> e matches StreamError::Os(_),
            r is Ok ==> final(self)@ == old(self)@ + str@,
    {
        match unix::write_stdout(self, str) {
            Ok(()) => {},
            Err(e) => {
                return Err(e);
            },
        }
        unix::flush_stdout(self)
    }

    /// Prints the specified string to the standard output, followed by a
    /// newline character.
    pub fn println(&mut self, str: &str) -> (r: Result<(), StreamError>)
        ensures
            r matches Err(e) ==> e matches StreamError::Os(_),
            r is Ok ==> final(self)@ == old(self)@ + str@ + "\n"@,
    {
        match unix::write_stdout(self, str) {
            Ok(()) => {},
            Err(e) => {
                return Err(e);
            },
        }
        unix::write_stdout(self, "\n")
    }

    /// Clears the screen by sending an escape sequence, moving the cursor to
    /// the top-left corner of the terminal.
    pub fn clear(&mut self) -> (r: Result<(), StreamError>)
        ensures
            r matches Err(e) ==> e matches StreamError::Os(_),
            r is Ok ==> final(self)@ == old(self)@ + clear_screen_seq(),
    {
        self.print("\r\x1b[2J\r\x1b[H")
    }

    /// Clears the screen from the cursor position to the end of the screen.
    pub fn clear_to_end(&mut self) -> (r: Result<(), StreamError>)
        ensures
            r matches Err(e) ==> e matches StreamError::Os(_),
            r is Ok ==> final(self)@ == old(self)@ + clear_to_end_seq(),
    {
        self.print("\x1b[J")
    }

    /// Clears the screen from the beginning to the cursor position.
    pub fn clear_to_beginning(&mut self) -> (r: Result<(), StreamError>)
        ensures
            r matches Err(e) ==> e matches StreamError::Os(_),
            r is Ok ==> final(self)@ == old(self)@ + clear_to_beginning_seq(),
    {
        self.print("\x1b[1J")
    }

    /// Clears the current line from the cursor position to the end of the line.
    pub fn clear_line_to_end(&mut self) -> (r: Result<(), StreamError>)
        ensures
            r matches Err(e) ==> e matches StreamError::Os(_),
            r is Ok ==> final(self)@ == old(self)@ + clear_line_to_end_seq(),
    {
        self.print("\x1b[K")
    }

    /// Clears the current line from the beginning to the cursor position.
    pub fn clear_line_to_beginning(&mut self) -> (r: Result<(), StreamError>)
        ensures
            r matches Err(e) ==> e matches StreamError::Os(_),
            r is Ok ==> final(self)@ == old(self)@ + clear_line_to_beginning_seq(),
    {
        self.print("\x1b[1K")
    }

    /// Moves the cursor to the specified row and column.
    pub fn move_cursor(&mut self, rows: usize, columns: usize) -> (r: Result<(), StreamError>)
        ensures
            r matches Err(e) ==> e matches StreamError::Os(_),
            r is Ok ==> final(self)@ == old(self)@ + move_cursor_seq(rows as int, columns as int),
    {
        let mut s = String::from_str("\x1b[");
        let row_digits = decimal_string(rows);
        s.append(row_digits.as_str());
        s.append(";");
        let col_digits = decimal_string(columns);
        s.append(col_digits.as_str());
        s.append("H");
        proof {
            assert(s@ =~= move_cursor_seq(rows as int, columns as int));
        }
        self.print(s.as_str())
    }

    /// Moves the cursor up by a specified number of rows.
    pub fn move_cursor_up(&mut self, rows: usize) -> (r: Result<(), StreamError>)
        ensures
            r matches Err(e) ==> e matches StreamError::Os(_),
            r is Ok ==> final(self)@ == old(self)@ + cursor_step_seq(rows as int, "A"@),
    {
        let mut s = String::from_str("\x1b[");
        let digits = decimal_string(rows);
        s.append(digits.as_str());
        s.append("A");
        proof {
            assert(s@ =~= cursor_step_seq(rows as int, "A"@));
        }
        self.print(s.as_str())
    }

    /// Moves the cursor down by a specified number of rows.
    pub fn move_cursor_down(&mut self, rows: usize) -> (r: Result<(), StreamError>)
        ensures
            r matches Err(e) ==> e matches StreamError::Os(_),
            r is Ok ==> final(self)@ == old(self)@ + cursor_step_seq(rows as int, "B"@),
    {
        let mut s = String::from_str("\x1b[");
        let digits = decimal_string(rows);
        s.append(digits.as_str());
        s.append("B");
        proof {
            assert(s@ =~= cursor_step_seq(rows as int, "B"@));
        }
        self.print(s.as_str())
    }

    /// Moves the cursor forward (right) by a specified number of columns.
    pub fn move_cursor_forward(&mut self, columns: usize) -> (r: Result<(), StreamError>)
        ensures
            r matches Err(e) ==> e matches StreamError::Os(_),
            r is Ok ==> final(self)@ == old(self)@ + cursor_step_seq(columns as int, "C"@),
    {
        let mut s = String::from_str("\x1b[");
        let digits = decimal_string(columns);
        s.append(digits.as_str());
        s.append("C");
        proof {
            assert(s@ =~= cursor_step_seq(columns as int, "C"@));
        }
        self.print(s.as_str())
    }

    /// Moves the cursor backward (left) by a specified number of columns.
    pub fn move_cursor_backward(&mut self, columns: usize) -> (r: Result<(), StreamError>)
        ensures
            r matches Err(e) ==> e matches StreamError::Os(_),
            r is Ok ==> final(self)@ == old(self)@ + cursor_step_seq(columns as int, "D"@),
    {
        let mut s = String::from_str("\x1b[");
        let digits = decimal_string(columns);
        s.append(digits.as_str());
        s.append("D");
        proof {
            assert(s@ =~= cursor_step_seq(columns as int, "D"@));
        }
        self.print(s.as_str())
    }

    /// Hides the cursor in the terminal.
    pub fn hide_cursor(&mut self) -> (r: Result<(), StreamError>)
        ensures
            r matches Err(e) ==> e matches StreamError::Os(_),
            r is Ok ==> final(self)@ == old(self)@ + hide_cursor_seq(),
    {
        self.print("\x1b[?25l")
    }

    /// Shows the cursor in the terminal.
    pub fn show(&mut self) -> (r: Result<(), StreamError>)
        ensures
            r matches Err(e) ==> e matches StreamError::Os(_),
            r is Ok ==> final(self)@ == old(self)@ + show_cursor_seq(),
    {
        self.print("\x1b[?25h")
    }

    /// Gives the dimensions of the terminal, (`row`, `column`), or `None`
    /// when the OS reports zero in either dimension: the queried size is
    /// handed to `accept_dims`, which fixes the answer for every report.
    pub fn size(&self) -> (r: Option<(usize, usize)>)
        ensures
            r matches Some(p) ==> p.0 > 0 && p.1 > 0,
    {
        accept_dims(unix::query_winsize(self))
    }
}

/// The outcome of a timeout-bounded line read, as a function of the trace
/// between the guard's two mode switches: every full-budget poll reported
/// nothing, and then either the remainder's poll reported nothing too (no
/// result), or a poll reported ready and the line was read.
pub open spec fn timeout_line_result(
    timeout: int,
    inner: Seq<Ev>,
    r: Result<Option<Seq<char>>, StreamError>,
) -> bool {
    match r {
        Ok(ob) => match ob {
            None => exists|m: int|
                #![auto]
                ({
                    &&& 0 <= m
                    &&& (m >= 1 ==> timeout > m * (i32::MAX as int))
                    &&& timeout - m * (i32::MAX as int) <= i32::MAX as int
                    &&& inner == unready_polls(i32::MAX as int, m).push(
                        poll_ev(timeout - m * (i32::MAX as int), false),
                    )
                }),
            Some(s) => exists|m: int|
                #![auto]
                ({
                    &&& 0 <= m
                    &&& (m >= 1 ==> timeout > m * (i32::MAX as int))
                    &&& inner == unready_polls(i32::MAX as int, m) + seq![
                        poll_ev(chunk_wait(timeout - m * (i32::MAX as int)), true),
                        line_ev(s),
                    ]
                }),
        },
        Err(e) => e matches StreamError::Os(_),
    }
}

/// The view of a timeout-bounded line read's outcome: the text as a
/// character sequence.
pub open spec fn line_view_opt(r: Result<Option<String>, StreamError>) -> Result<
    Option<Seq<char>>,
    StreamError,
> {
    match r {
        Ok(None) => Ok(None),
        Ok(Some(s)) => Ok(Some(s@)),
        Err(e) => Err(e),
    }
}

/// A trace that grew by a mode switch, then a read attempt, then a second
/// mode switch is the base plus a bracketed delta: the two switches stand
/// first and last, with the attempt between them.
proof fn lemma_bracket(g0: Seq<Ev>, m1: Ev, g1: Seq<Ev>, a: Seq<Ev>, g2: Seq<Ev>, m2: Ev, g3: Seq<Ev>)
    requires
        g1 == g0.push(m1),
        g1.is_prefix_of(g2),
        a == trace_delta(g1, g2),
        g3 == g2.push(m2),
    ensures
        g0.is_prefix_of(g3),
        trace_delta(g0, g3) == seq![m1] + a + seq![m2],
        trace_delta(g0, g3)[0] == m1,
        trace_delta(g0, g3).last() == m2,
        trace_delta(g0, g3).len() == a.len() + 2,
        bracket_inner(trace_delta(g0, g3)) == a,
{
    assert(g2 =~= g1 + a);
    assert(trace_delta(g0, g3) =~= seq![m1] + a + seq![m2]);
    assert(bracket_inner(seq![m1] + a + seq![m2]) =~= a);
}

impl StdinLock {
    /// Reads a single key from the standard input stream, blocking until
    /// input arrives. The trace's first event switches the terminal to
    /// byte-immediate, no-echo mode, and its last event switches it back to
    /// the mode found before, whatever the outcome — only a failed mode
    /// call itself (the one unrecoverable condition) can leave it
    /// unrestored.
    pub fn read_key(&mut self) -> (r: Result<Key, StreamError>)
        ensures
            final(self).canon_mask() == old(self).canon_mask(),
            final(self).echo_mask() == old(self).echo_mask(),
            old(self).log().is_prefix_of(final(self).log()),
            !(r matches Err(StreamError::Unattended)),
            !(r matches Err(StreamError::Mode(_))) ==> ({
                &&& final(self).term_mode() is Some
                &&& (old(self).term_mode() matches Some(b) ==> final(self).term_mode() == Some(b))
            }),
            r matches Err(StreamError::Mode(_)) ==> ({
                let d = trace_delta(old(self).log(), final(self).log());
                &&& (d == Seq::<Ev>::empty() ==> (final(self).term_mode() == old(self).term_mode()
                    || final(self).term_mode() is None))
                &&& (d.len() >= 1 ==> ((d[0] matches Ev::Mode { discard, .. } && discard == false)
                    && final(self).term_mode() is None))
            }),
            !(r matches Err(StreamError::Mode(_))) ==> ({
                let d = trace_delta(old(self).log(), final(self).log());
                &&& mode_bracket(
                    d,
                    key_read_flags(),
                    old(self).canon_mask(),
                    old(self).echo_mask(),
                    false,
                    old(self).term_mode(),
                )
                &&& final(self).term_mode() == Some(restored_bits(d))
                &&& (r matches Ok(k) ==> key_success_trace(-1, bracket_inner(d), k))
                &&& (r == Err::<Key, StreamError>(StreamError::Interrupted) <==> interrupted_end(
                    bracket_inner(d),
                ))
                &&& (r == Err::<Key, StreamError>(StreamError::Eof) <==> eof_end(bracket_inner(d)))
            }),
    {
        let ghost g0 = self.log();
        let flags: &[Flag] = &[Flag::NotCanonical, Flag::NotEcho];
        proof {
            assert(flags@ =~= key_read_flags());
        }
        let cfg = match Config::set(self, false, flags) {
            Ok(c) => c,
            Err(e) => {
                proof {
                    assert(trace_delta(g0, self.log()) =~= Seq::<Ev>::empty());
                }
                return Err(e);
            },
        };
        let ghost g1 = self.log();
        let ghost snap = cfg.snapshot_bits();
        let ghost m1 = mode_ev(
            spec_apply_flags(snap, key_read_flags(), old(self).canon_mask(), old(self).echo_mask()),
            false,
        );
        let out = process_key(self, -1);
        let ghost g2 = self.log();
        let ghost a = trace_delta(g1, g2);
        let rel = cfg.release(self);
        match rel {
            Err(e) => {
                proof {
                    assert(g2 =~= g1 + a);
                    assert(trace_delta(g0, g2) =~= seq![m1] + a);
                    assert(trace_delta(g0, g2)[0] == m1);
                }
                Err(e)
            },
            Ok(()) => {
                proof {
                    lemma_bracket(g0, m1, g1, a, g2, mode_ev(snap, false), self.log());
                }
                match out {
                    Ok(Some(k)) => Ok(k),
                    // An unbounded wait that still reported nothing
                    // readable: the descriptor raised only error events, so
                    // no key can ever come. Surfaced as an OS failure with
                    // no error code.
                    Ok(None) => Err(StreamError::Os(0)),
                    Err(e) => Err(e),
                }
            },
        }
    }

    /// Reads a line of text from the standard input stream, blocking until
    /// input arrives; canonical, no-echo mode for the duration, and the
    /// previous mode restored as for `read_key`.
    pub fn read_string(&mut self) -> (r: Result<String, StreamError>)
        ensures
            final(self).canon_mask() == old(self).canon_mask(),
            final(self).echo_mask() == old(self).echo_mask(),
            old(self).log().is_prefix_of(final(self).log()),
            !(r matches Err(StreamError::Unattended)),
            !(r matches Err(StreamError::Mode(_))) ==> ({
                &&& final(self).term_mode() is Some
                &&& (old(self).term_mode() matches Some(b) ==> final(self).term_mode() == Some(b))
            }),
            r matches Err(StreamError::Mode(_)) ==> ({
                let d = trace_delta(old(self).log(), final(self).log());
                &&& (d == Seq::<Ev>::empty() ==> (final(self).term_mode() == old(self).term_mode()
                    || final(self).term_mode() is None))
                &&& (d.len() >= 1 ==> ((d[0] matches Ev::Mode { discard, .. } && discard == false)
                    && final(self).term_mode() is None))
            }),
            !(r matches Err(StreamError::Mode(_))) ==> ({
                let d = trace_delta(old(self).log(), final(self).log());
                &&& mode_bracket(
                    d,
                    line_read_flags(),
                    old(self).canon_mask(),
                    old(self).echo_mask(),
                    false,
                    old(self).term_mode(),
                )
                &&& final(self).term_mode() == Some(restored_bits(d))
                &&& (r matches Ok(s) ==> bracket_inner(d) == seq![poll_ev(-1, true), line_ev(s@)])
            }),
    {
        self.read_string_blocking_with(false)
    }

    /// Reads a line of text from the standard input stream with the text
    /// hidden: like `read_string`, but unread buffered input is discarded
    /// at both mode switches (the trace records it), so stray keystrokes
    /// from before the prompt cannot leak into the result.
    pub fn read_string_hidden(&mut self) -> (r: Result<String, StreamError>)
        ensures
            final(self).canon_mask() == old(self).canon_mask(),
            final(self).echo_mask() == old(self).echo_mask(),
            old(self).log().is_prefix_of(final(self).log()),
            !(r matches Err(StreamError::Unattended)),
            !(r matches Err(StreamError::Mode(_))) ==> ({
                &&& final(self).term_mode() is Some
                &&& (old(self).term_mode() matches Some(b) ==> final(self).term_mode() == Some(b))
            }),
            r matches Err(StreamError::Mode(_)) ==> ({
                let d = trace_delta(old(self).log(), final(self).log());
                &&& (d == Seq::<Ev>::empty() ==> (final(self).term_mode() == old(self).term_mode()
                    || final(self).term_mode() is None))
                &&& (d.len() >= 1 ==> ((d[0] matches Ev::Mode { discard, .. } && discard == true)
                    && final(self).term_mode() is None))
            }),
            !(r matches Err(StreamError::Mode(_))) ==> ({
                let d = trace_delta(old(self).log(), final(self).log());
                &&& mode_bracket(
                    d,
                    line_read_flags(),
                    old(self).canon_mask(),
                    old(self).echo_mask(),
                    true,
                    old(self).term_mode(),
                )
                &&& final(self).term_mode() == Some(restored_bits(d))
                &&& (r matches Ok(s) ==> bracket_inner(d) == seq![poll_ev(-1, true), line_ev(s@)])
            }),
    {
        self.read_string_blocking_with(true)
    }

    /// The shared blocking line read: both variants run canonical with no
    /// echo; the hidden one discards unread input at the mode switches.
    fn read_string_blocking_with(&mut self, flush: bool) -> (r: Result<String, StreamError>)
        ensures
            final(self).canon_mask() == old(self).canon_mask(),
            final(self).echo_mask() == old(self).echo_mask(),
            old(self).log().is_prefix_of(final(self).log()),
            !(r matches Err(StreamError::Unattended)),
            !(r matches Err(StreamError::Mode(_))) ==> ({
                &&& final(self).term_mode() is Some
                &&& (old(self).term_mode() matches Some(b) ==> final(self).term_mode() == Some(b))
            }),
            r matches Err(StreamError::Mode(_)) ==> ({
                let d = trace_delta(old(self).log(), final(self).log());
                &&& (d == Seq::<Ev>::empty() ==> (final(self).term_mode() == old(self).term_mode()
                    || final(self).term_mode() is None))
                &&& (d.len() >= 1 ==> ((d[0] matches Ev::Mode { discard, .. } && discard == flush)
                    && final(self).term_mode() is None))
            }),
            !(r matches Err(StreamError::Mode(_))) ==> ({
                let d = trace_delta(old(self).log(), final(self).log());
                &&& mode_bracket(
                    d,
                    line_read_flags(),
                    old(self).canon_mask(),
                    old(self).echo_mask(),
                    flush,
                    old(self).term_mode(),
                )
                &&& final(self).term_mode() == Some(restored_bits(d))
                &&& (r matches Ok(s) ==> bracket_inner(d) == seq![poll_ev(-1, true), line_ev(s@)])
            }),
    {
        let ghost g0 = self.log();
        let flags: &[Flag] = &[Flag::Canonical, Flag::NotEcho];
        proof {
            assert(flags@ =~= line_read_flags());
        }
        let cfg = match Config::set(self, flush, flags) {
            Ok(c) => c,
            Err(e) => {
                proof {
                    assert(trace_delta(g0, self.log()) =~= Seq::<Ev>::empty());
                }
                return Err(e);
            },
        };
        let ghost g1 = self.log();
        let ghost snap = cfg.snapshot_bits();
        let ghost m1 = mode_ev(
            spec_apply_flags(
                snap,
                line_read_flags(),
                old(self).canon_mask(),
                old(self).echo_mask(),
            ),
            flush,
        );
        let out = read_line_ready(self, -1);
        let ghost g2 = self.log();
        let ghost a = trace_delta(g1, g2);
        let rel = cfg.release(self);
        match rel {
            Err(e) => {
                proof {
                    assert(g2 =~= g1 + a);
                    assert(trace_delta(g0, g2) =~= seq![m1] + a);
                    assert(trace_delta(g0, g2)[0] == m1);
                }
                Err(e)
            },
            Ok(()) => {
                proof {
                    lemma_bracket(g0, m1, g1, a, g2, mode_ev(snap, flush), self.log());
                }
                match out {
                    Ok(Some(s)) => Ok(s),
                    Ok(None) => Err(StreamError::Os(0)),
                    Err(e) => Err(e),
                }
            },
        }
    }

    /// Reads a key, waiting at most `timeout_ms` milliseconds; `None` when
    /// the whole budget elapsed with nothing ready. The budget is served as
    /// a run of maximal bounded waits, since the OS poll takes a bounded
    /// wait only; a zero budget polls once without blocking at all. The
    /// mode is switched and restored as for `read_key`.
    pub fn read_key_or_timeout(&mut self, timeout_ms: u128) -> (r: Result<
        Option<Key>,
        StreamError,
    >)
        ensures
            final(self).canon_mask() == old(self).canon_mask(),
            final(self).echo_mask() == old(self).echo_mask(),
            old(self).log().is_prefix_of(final(self).log()),
            !(r matches Err(StreamError::Unattended)),
            !(r matches Err(StreamError::Mode(_))) ==> ({
                &&& final(self).term_mode() is Some
                &&& (old(self).term_mode() matches Some(b) ==> final(self).term_mode() == Some(b))
            }),
            r matches Err(StreamError::Mode(_)) ==> ({
                let d = trace_delta(old(self).log(), final(self).log());
                &&& (d == Seq::<Ev>::empty() ==> (final(self).term_mode() == old(self).term_mode()
                    || final(self).term_mode() is None))
                &&& (d.len() >= 1 ==> ((d[0] matches Ev::Mode { discard, .. } && discard == false)
                    && final(self).term_mode() is None))
            }),
            !(r matches Err(StreamError::Mode(_))) ==> ({
                let d = trace_delta(old(self).log(), final(self).log());
                &&& mode_bracket(
                    d,
                    key_read_flags(),
                    old(self).canon_mask(),
                    old(self).echo_mask(),
                    false,
                    old(self).term_mode(),
                )
                &&& final(self).term_mode() == Some(restored_bits(d))
                &&& (r == Ok::<Option<Key>, StreamError>(None) ==> exists|m: int|
                    #![auto]
                    ({
                        &&& 0 <= m
                        &&& (m >= 1 ==> timeout_ms as int > m * (i32::MAX as int))
                        &&& timeout_ms as int - m * (i32::MAX as int) <= i32::MAX as int
                        &&& bracket_inner(d) == unready_polls(i32::MAX as int, m).push(
                            poll_ev(timeout_ms as int - m * (i32::MAX as int), false),
                        )
                    }))
                &&& (r matches Ok(Some(k)) ==> exists|m: int|
                    #![auto]
                    ({
                        &&& 0 <= m
                        &&& (m >= 1 ==> timeout_ms as int > m * (i32::MAX as int))
                        &&& bracket_inner(d).take(m) == unready_polls(i32::MAX as int, m)
                        &&& key_success_trace(
                            chunk_wait(timeout_ms as int - m * (i32::MAX as int)),
                            bracket_inner(d).skip(m),
                            k,
                        )
                    }))
                &&& (r == Err::<Option<Key>, StreamError>(StreamError::Interrupted)
                    <==> interrupted_end(bracket_inner(d)))
                &&& (r == Err::<Option<Key>, StreamError>(StreamError::Eof) <==> eof_end(
                    bracket_inner(d),
                ))
            }),
    {
        let ghost g0 = self.log();
        let flags: &[Flag] = &[Flag::NotCanonical, Flag::NotEcho];
        proof {
            assert(flags@ =~= key_read_flags());
        }
        let cfg = match Config::set(self, false, flags) {
            Ok(c) => c,
            Err(e) => {
                proof {
                    assert(trace_delta(g0, self.log()) =~= Seq::<Ev>::empty());
                }
                return Err(e);
            },
        };
        let ghost base = self.log();
        let ghost snap = cfg.snapshot_bits();
        let ghost m1 = mode_ev(
            spec_apply_flags(snap, key_read_flags(), old(self).canon_mask(), old(self).echo_mask()),
            false,
        );
        let ghost md = self.term_mode();
        let mut remaining = timeout_ms;
        let ghost mut m: int = 0;
        while remaining > (i32::MAX as u128)
            invariant
                self.canon_mask() == old(self).canon_mask(),
                self.echo_mask() == old(self).echo_mask(),
                self.term_mode() == md,
                g0 == old(self).log(),
                base == g0.push(m1),
                base.is_prefix_of(self.log()),
                0 <= m,
                remaining as int == timeout_ms as int - m * (i32::MAX as int),
                m >= 1 ==> timeout_ms as int > m * (i32::MAX as int),
                trace_delta(base, self.log()) == unready_polls(i32::MAX as int, m),
                old(self).term_mode() matches Some(b) ==> snap == b,
                cfg.snapshot_bits() == snap,
                !cfg.discards(),
                m1 == mode_ev(
                    spec_apply_flags(
                        snap,
                        key_read_flags(),
                        old(self).canon_mask(),
                        old(self).echo_mask(),
                    ),
                    false,
                ),
            decreases remaining,
        {
            let ghost pre = self.log();
            match process_key(self, i32::MAX) {
                Ok(None) => {
                    proof {
                        lemma_trace_extend(base, pre, self.log());
                        assert(trace_delta(base, self.log()) =~= unready_polls(
                            i32::MAX as int,
                            m + 1,
                        ));
                        m = m + 1;
                    }
                    remaining = remaining - (i32::MAX as u128);
                },
                Ok(Some(k)) => {
                    proof {
                        lemma_trace_extend(base, pre, self.log());
                        assert(trace_delta(base, self.log()).take(m) =~= unready_polls(
                            i32::MAX as int,
                            m,
                        ));
                        assert(trace_delta(base, self.log()).skip(m) =~= trace_delta(
                            pre,
                            self.log(),
                        ));
                    }
                    let ghost g2 = self.log();
                    let ghost a = trace_delta(base, g2);
                    let rel = cfg.release(self);
                    return match rel {
                        Err(e) => {
                            proof {
                                assert(g2 =~= base + a);
                                assert(trace_delta(g0, g2) =~= seq![m1] + a);
                                assert(trace_delta(g0, g2)[0] == m1);
                            }
                            Err(e)
                        },
                        Ok(()) => {
                            proof {
                                lemma_bracket(g0, m1, base, a, g2, mode_ev(snap, false), self.log());
                            }
                            Ok(Some(k))
                        },
                    };
                },
                Err(e) => {
                    proof {
                        lemma_trace_extend(base, pre, self.log());
                        assert(trace_delta(base, self.log()).take(m) =~= unready_polls(
                            i32::MAX as int,
                            m,
                        ));
                        assert(trace_delta(base, self.log()).skip(m) =~= trace_delta(
                            pre,
                            self.log(),
                        ));
                    }
                    let ghost g2 = self.log();
                    let ghost a = trace_delta(base, g2);
                    let rel = cfg.release(self);
                    return match rel {
                        Err(e2) => {
                            proof {
                                assert(g2 =~= base + a);
                                assert(trace_delta(g0, g2) =~= seq![m1] + a);
                                assert(trace_delta(g0, g2)[0] == m1);
                            }
                            Err(e2)
                        },
                        Ok(()) => {
                            proof {
                                lemma_bracket(g0, m1, base, a, g2, mode_ev(snap, false), self.log());
                            }
                            Err(e)
                        },
                    };
                },
            }
        }
        let ghost pre = self.log();
        let out = process_key(self, remaining as i32);
        proof {
            lemma_trace_extend(base, pre, self.log());
            assert(trace_delta(base, self.log()).take(m) =~= unready_polls(i32::MAX as int, m));
            assert(trace_delta(base, self.log()).skip(m) =~= trace_delta(pre, self.log()));
        }
        let ghost g2 = self.log();
        let ghost a = trace_delta(base, g2);
        let rel = cfg.release(self);
        match rel {
            Err(e) => {
                proof {
                    assert(g2 =~= base + a);
                    assert(trace_delta(g0, g2) =~= seq![m1] + a);
                    assert(trace_delta(g0, g2)[0] == m1);
                }
                Err(e)
            },
            Ok(()) => {
                proof {
                    lemma_bracket(g0, m1, base, a, g2, mode_ev(snap, false), self.log());
                }
                match out {
                    Ok(Some(k)) => Ok(Some(k)),
                    Ok(None) => {
                        proof {
                            assert(a =~= unready_polls(i32::MAX as int, m).push(
                                poll_ev(timeout_ms as int - m * (i32::MAX as int), false),
                            ));
                        }
                        Ok(None)
                    },
                    Err(e) => Err(e),
                }
            },
        }
    }

    /// Reads a line of text, waiting at most `timeout_ms` milliseconds;
    /// `None` when the whole budget elapsed with nothing ready. Canonical,
    /// echoing mode for the duration.
    pub fn read_string_or_timeout(&mut self, timeout_ms: u128) -> (r: Result<
        Option<String>,
        StreamError,
    >)
        ensures
            final(self).canon_mask() == old(self).canon_mask(),
            final(self).echo_mask() == old(self).echo_mask(),
            old(self).log().is_prefix_of(final(self).log()),
            !(r matches Err(StreamError::Unattended)),
            !(r matches Err(StreamError::Mode(_))) ==> ({
                &&& final(self).term_mode() is Some
                &&& (old(self).term_mode() matches Some(b) ==> final(self).term_mode() == Some(b))
            }),
            r matches Err(StreamError::Mode(_)) ==> ({
                let d = trace_delta(old(self).log(), final(self).log());
                &&& (d == Seq::<Ev>::empty() ==> (final(self).term_mode() == old(self).term_mode()
                    || final(self).term_mode() is None))
                &&& (d.len() >= 1 ==> ((d[0] matches Ev::Mode { discard, .. } && discard == false)
                    && final(self).term_mode() is None))
            }),
            !(r matches Err(StreamError::Mode(_))) ==> ({
                let d = trace_delta(old(self).log(), final(self).log());
                &&& mode_bracket(
                    d,
                    echo_line_read_flags(),
                    old(self).canon_mask(),
                    old(self).echo_mask(),
                    false,
                    old(self).term_mode(),
                )
                &&& final(self).term_mode() == Some(restored_bits(d))
                &&& timeout_line_result(timeout_ms as int, bracket_inner(d), line_view_opt(r))
            }),
    {
        self.read_string_or_timeout_with(timeout_ms, false, false)
    }

    /// Reads a line of text with the text hidden, waiting at most
    /// `timeout_ms` milliseconds; like `read_string_or_timeout`, but
    /// without echo, and unread buffered input is discarded at the mode
    /// switches so stray keystrokes from before cannot leak.
    pub fn read_string_hidden_or_timeout(&mut self, timeout_ms: u128) -> (r: Result<
        Option<String>,
        StreamError,
    >)
        ensures
            final(self).canon_mask() == old(self).canon_mask(),
            final(self).echo_mask() == old(self).echo_mask(),
            old(self).log().is_prefix_of(final(self).log()),
            !(r matches Err(StreamError::Unattended)),
            !(r matches Err(StreamError::Mode(_))) ==> ({
                &&& final(self).term_mode() is Some
                &&& (old(self).term_mode() matches Some(b) ==> final(self).term_mode() == Some(b))
            }),
            r matches Err(StreamError::Mode(_)) ==> ({
                let d = trace_delta(old(self).log(), final(self).log());
                &&& (d == Seq::<Ev>::empty() ==> (final(self).term_mode() == old(self).term_mode()
                    || final(self).term_mode() is None))
                &&& (d.len() >= 1 ==> ((d[0] matches Ev::Mode { discard, .. } && discard == true)
                    && final(self).term_mode() is None))
            }),
            !(r matches Err(StreamError::Mode(_))) ==> ({
                let d = trace_delta(old(self).log(), final(self).log());
                &&& mode_bracket(
                    d,
                    line_read_flags(),
                    old(self).canon_mask(),
                    old(self).echo_mask(),
                    true,
                    old(self).term_mode(),
                )
                &&& final(self).term_mode() == Some(restored_bits(d))
                &&& timeout_line_result(timeout_ms as int, bracket_inner(d), line_view_opt(r))
            }),
    {
        self.read_string_or_timeout_with(timeout_ms, true, true)
    }

    /// The shared timeout-bounded line read: the mode flags differ only in
    /// echo, and the hidden variant discards unread input at the switches.
    fn read_string_or_timeout_with(&mut self, timeout_ms: u128, flush: bool, hidden: bool) -> (r:
        Result<Option<String>, StreamError>)
        ensures
            final(self).canon_mask() == old(self).canon_mask(),
            final(self).echo_mask() == old(self).echo_mask(),
            old(self).log().is_prefix_of(final(self).log()),
            !(r matches Err(StreamError::Unattended)),
            !(r matches Err(StreamError::Mode(_))) ==> ({
                &&& final(self).term_mode() is Some
                &&& (old(self).term_mode() matches Some(b) ==> final(self).term_mode() == Some(b))
            }),
            r matches Err(StreamError::Mode(_)) ==> ({
                let d = trace_delta(old(self).log(), final(self).log());
                &&& (d == Seq::<Ev>::empty() ==> (final(self).term_mode() == old(self).term_mode()
                    || final(self).term_mode() is None))
                &&& (d.len() >= 1 ==> ((d[0] matches Ev::Mode { discard, .. } && discard == flush)
                    && final(self).term_mode() is None))
            }),
            !(r matches Err(StreamError::Mode(_))) ==> ({
                let d = trace_delta(old(self).log(), final(self).log());
                &&& mode_bracket(
                    d,
                    if hidden {
                        line_read_flags()
                    } else {
                        echo_line_read_flags()
                    },
                    old(self).canon_mask(),
                    old(self).echo_mask(),
                    flush,
                    old(self).term_mode(),
                )
                &&& final(self).term_mode() == Some(restored_bits(d))
                &&& timeout_line_result(timeout_ms as int, bracket_inner(d), line_view_opt(r))
            }),
    {
        let ghost g0 = self.log();
        let flags: &[Flag] = if hidden {
            &[Flag::Canonical, Flag::NotEcho]
        } else {
            &[Flag::Canonical, Flag::Echo]
        };
        proof {
            if hidden {
                assert(flags@ =~= line_read_flags());
            } else {
                assert(flags@ =~= echo_line_read_flags());
            }
        }
        let cfg = match Config::set(self, flush, flags) {
            Ok(c) => c,
            Err(e) => {
                proof {
                    assert(trace_delta(g0, self.log()) =~= Seq::<Ev>::empty());
                }
                return Err(e);
            },
        };
        let ghost base = self.log();
        let ghost snap = cfg.snapshot_bits();
        let ghost m1 = mode_ev(
            spec_apply_flags(
                snap,
                if hidden {
                    line_read_flags()
                } else {
                    echo_line_read_flags()
                },
                old(self).canon_mask(),
                old(self).echo_mask(),
            ),
            flush,
        );
        let ghost md = self.term_mode();
        let mut remaining = timeout_ms;
        let ghost mut m: int = 0;
        while remaining > (i32::MAX as u128)
            invariant
                self.canon_mask() == old(self).canon_mask(),
                self.echo_mask() == old(self).echo_mask(),
                self.term_mode() == md,
                g0 == old(self).log(),
                base == g0.push(m1),
                base.is_prefix_of(self.log()),
                0 <= m,
                remaining as int == timeout_ms as int - m * (i32::MAX as int),
                m >= 1 ==> timeout_ms as int > m * (i32::MAX as int),
                trace_delta(base, self.log()) == unready_polls(i32::MAX as int, m),
                old(self).term_mode() matches Some(b) ==> snap == b,
                cfg.snapshot_bits() == snap,
                cfg.discards() == flush,
                m1 == mode_ev(
                    spec_apply_flags(
                        snap,
                        if hidden {
                            line_read_flags()
                        } else {
                            echo_line_read_flags()
                        },
                        old(self).canon_mask(),
                        old(self).echo_mask(),
                    ),
                    flush,
                ),
            decreases remaining,
        {
            let ghost pre = self.log();
            match read_line_ready(self, i32::MAX) {
                Ok(None) => {
                    proof {
                        lemma_trace_extend(base, pre, self.log());
                        assert(trace_delta(base, self.log()) =~= unready_polls(
                            i32::MAX as int,
                            m + 1,
                        ));
                        m = m + 1;
                    }
                    remaining = remaining - (i32::MAX as u128);
                },
                Ok(Some(s)) => {
                    proof {
                        lemma_trace_extend(base, pre, self.log());
                        assert(trace_delta(base, self.log()).take(m) =~= unready_polls(
                            i32::MAX as int,
                            m,
                        ));
                        assert(trace_delta(base, self.log()).skip(m) =~= trace_delta(
                            pre,
                            self.log(),
                        ));
                    }
                    let ghost g2 = self.log();
                    let ghost a = trace_delta(base, g2);
                    let rel = cfg.release(self);
                    return match rel {
                        Err(e) => {
                            proof {
                                assert(g2 =~= base + a);
                                assert(trace_delta(g0, g2) =~= seq![m1] + a);
                                assert(trace_delta(g0, g2)[0] == m1);
                            }
                            Err(e)
                        },
                        Ok(()) => {
                            proof {
                                lemma_bracket(g0, m1, base, a, g2, mode_ev(snap, flush), self.log());
                            }
                            Ok(Some(s))
                        },
                    };
                },
                Err(e) => {
                    proof {
                        lemma_trace_extend(base, pre, self.log());
                    }
                    let ghost g2 = self.log();
                    let ghost a = trace_delta(base, g2);
                    let rel = cfg.release(self);
                    return match rel {
                        Err(e2) => {
                            proof {
                                assert(g2 =~= base + a);
                                assert(trace_delta(g0, g2) =~= seq![m1] + a);
                                assert(trace_delta(g0, g2)[0] == m1);
                            }
                            Err(e2)
                        },
                        Ok(()) => {
                            proof {
                                lemma_bracket(g0, m1, base, a, g2, mode_ev(snap, flush), self.log());
                            }
                            Err(e)
                        },
                    };
                },
            }
        }
        let ghost pre = self.log();
        let out = read_line_ready(self, remaining as i32);
        proof {
            lemma_trace_extend(base, pre, self.log());
            assert(trace_delta(base, self.log()).take(m) =~= unready_polls(i32::MAX as int, m));
            assert(trace_delta(base, self.log()).skip(m) =~= trace_delta(pre, self.log()));
        }
        let ghost g2 = self.log();
        let ghost a = trace_delta(base, g2);
        let rel = cfg.release(self);
        match rel {
            Err(e) => {
                proof {
                    assert(g2 =~= base + a);
                    assert(trace_delta(g0, g2) =~= seq![m1] + a);
                    assert(trace_delta(g0, g2)[0] == m1);
                }
                Err(e)
            },
            Ok(()) => {
                proof {
                    lemma_bracket(g0, m1, base, a, g2, mode_ev(snap, flush), self.log());
                }
                match out {
                    Ok(Some(s)) => Ok(Some(s)),
                    Ok(None) => {
                        proof {
                            assert(a =~= unready_polls(i32::MAX as int, m).push(
                                poll_ev(timeout_ms as int - m * (i32::MAX as int), false),
                            ));
                        }
                        Ok(None)
                    },
                    Err(e) => Err(e),
                }
            },
        }
    }
}

/// A key read in progress under the single-step discipline. The op holds
/// the mode guard from its first step to its last: it is released when a
/// step produces the key or an error, or by `cancel`.
pub struct KeyReadOp {
    config: Config,
}

/// What one step of a single-step key read produced.
pub enum KeyStep {
    /// Nothing was ready; the operation continues and should be stepped
    /// again later.
    Pending(KeyReadOp),
    /// The decoded key; the operation is over and the mode restored.
    Ready(Key),
}

/// A line read in progress under the single-step discipline.
pub struct StringReadOp {
    config: Config,
}

/// What one step of a single-step line read produced.
pub enum StringStep {
    /// Nothing was ready; the operation continues and should be stepped
    /// again later.
    Pending(StringReadOp),
    /// The line read; the operation is over and the mode restored.
    Ready(String),
}

impl StdinLock {
    /// Starts a single-step key read: switches the terminal to
    /// byte-immediate, no-echo mode (the trace records it) and hands back
    /// the operation that `step` drives. The mode stays changed until the
    /// operation ends.
    pub fn begin_read_key(&mut self) -> (r: Result<KeyReadOp, StreamError>)
        ensures
            final(self).canon_mask() == old(self).canon_mask(),
            final(self).echo_mask() == old(self).echo_mask(),
            r matches Ok(op) ==> ({
                &&& (old(self).term_mode() matches Some(b) ==> op.snapshot_bits() == b)
                &&& !op.discards()
                &&& final(self).term_mode() == Some(
                    spec_apply_flags(
                        op.snapshot_bits(),
                        key_read_flags(),
                        old(self).canon_mask(),
                        old(self).echo_mask(),
                    ),
                )
                &&& final(self).log() == old(self).log().push(
                    mode_ev(
                        spec_apply_flags(
                            op.snapshot_bits(),
                            key_read_flags(),
                            old(self).canon_mask(),
                            old(self).echo_mask(),
                        ),
                        false,
                    ),
                )
            }),
            r matches Err(e) ==> ({
                &&& e matches StreamError::Mode(_)
                &&& final(self).log() == old(self).log()
                &&& (final(self).term_mode() == old(self).term_mode() || final(self).term_mode()
                    is None)
            }),
    {
        let flags: &[Flag] = &[Flag::NotCanonical, Flag::NotEcho];
        proof {
            assert(flags@ =~= key_read_flags());
        }
        match Config::set(self, false, flags) {
            Ok(config) => Ok(KeyReadOp { config }),
            Err(e) => Err(e),
        }
    }

    /// Starts a single-step line read, in canonical, echoing mode.
    pub fn begin_read_string(&mut self) -> (r: Result<StringReadOp, StreamError>)
        ensures
            final(self).canon_mask() == old(self).canon_mask(),
            final(self).echo_mask() == old(self).echo_mask(),
            r matches Ok(op) ==> ({
                &&& (old(self).term_mode() matches Some(b) ==> op.snapshot_bits() == b)
                &&& !op.discards()
                &&& final(self).term_mode() == Some(
                    spec_apply_flags(
                        op.snapshot_bits(),
                        echo_line_read_flags(),
                        old(self).canon_mask(),
                        old(self).echo_mask(),
                    ),
                )
                &&& final(self).log() == old(self).log().push(
                    mode_ev(
                        spec_apply_flags(
                            op.snapshot_bits(),
                            echo_line_read_flags(),
                            old(self).canon_mask(),
                            old(self).echo_mask(),
                        ),
                        false,
                    ),
                )
            }),
            r matches Err(e) ==> ({
                &&& e matches StreamError::Mode(_)
                &&& final(self).log() == old(self).log()
                &&& (final(self).term_mode() == old(self).term_mode() || final(self).term_mode()
                    is None)
            }),
    {
        let flags: &[Flag] = &[Flag::Canonical, Flag::Echo];
        proof {
            assert(flags@ =~= echo_line_read_flags());
        }
        match Config::set(self, false, flags) {
            Ok(config) => Ok(StringReadOp { config }),
            Err(e) => Err(e),
        }
    }

    /// Starts a single-step line read with the text hidden: no echo, and
    /// unread buffered input discarded at the mode switch.
    pub fn begin_read_string_hidden(&mut self) -> (r: Result<StringReadOp, StreamError>)
        ensures
            final(self).canon_mask() == old(self).canon_mask(),
            final(self).echo_mask() == old(self).echo_mask(),
            r matches Ok(op) ==> ({
                &&& (old(self).term_mode() matches Some(b) ==> op.snapshot_bits() == b)
                &&& op.discards()
                &&& final(self).term_mode() == Some(
                    spec_apply_flags(
                        op.snapshot_bits(),
                        line_read_flags(),
                        old(self).canon_mask(),
                        old(self).echo_mask(),
                    ),
                )
                &&& final(self).log() == old(self).log().push(
                    mode_ev(
                        spec_apply_flags(
                            op.snapshot_bits(),
                            line_read_flags(),
                            old(self).canon_mask(),
                            old(self).echo_mask(),
                        ),
                        true,
                    ),
                )
            }),
            r matches Err(e) ==> ({
                &&& e matches StreamError::Mode(_)
                &&& final(self).log() == old(self).log()
                &&& (final(self).term_mode() == old(self).term_mode() || final(self).term_mode()
                    is None)
            }),
    {
        let flags: &[Flag] = &[Flag::Canonical, Flag::NotEcho];
        proof {
            assert(flags@ =~= line_read_flags());
        }
        match Config::set(self, true, flags) {
            Ok(config) => Ok(StringReadOp { config }),
            Err(e) => Err(e),
        }
    }
}

impl KeyReadOp {
    /// The local-mode bits captured when the operation began.
    pub closed spec fn snapshot_bits(&self) -> u64 {
        self.config.snapshot_bits()
    }

    /// Whether this operation's mode switches discard unread input.
    pub closed spec fn discards(&self) -> bool {
        self.config.discards()
    }

    /// One step of the read: exactly one zero-wait poll, never blocking the
    /// caller. Nothing pending leaves the operation in flight, mode still
    /// changed and nothing consumed; otherwise the key is decoded, the mode
    /// restored (the trace's last event), and the operation over.
    pub fn step(self, l: &mut StdinLock) -> (r: Result<KeyStep, StreamError>)
        ensures
            final(l).canon_mask() == old(l).canon_mask(),
            final(l).echo_mask() == old(l).echo_mask(),
            old(l).log().is_prefix_of(final(l).log()),
            later_polls_immediate(trace_delta(old(l).log(), final(l).log())),
            trace_delta(old(l).log(), final(l).log()).len() >= 1 ==> (trace_delta(
                old(l).log(),
                final(l).log(),
            )[0] matches Ev::Poll { wait, .. } ==> wait == spec_wait(0)),
            r matches Ok(KeyStep::Pending(op)) ==> ({
                &&& trace_delta(old(l).log(), final(l).log()) == seq![poll_ev(0, false)]
                &&& final(l).term_mode() == old(l).term_mode()
                &&& op.snapshot_bits() == self.snapshot_bits()
                &&& op.discards() == self.discards()
            }),
            r matches Ok(KeyStep::Ready(k)) ==> ({
                let d = trace_delta(old(l).log(), final(l).log());
                &&& d.len() >= 1
                &&& d.last() == mode_ev(self.snapshot_bits(), self.discards())
                &&& key_success_trace(0, d.subrange(0, d.len() - 1), k)
                &&& final(l).term_mode() == Some(self.snapshot_bits())
            }),
            r matches Err(e) ==> (e matches StreamError::Mode(_) || final(l).term_mode() == Some(
                self.snapshot_bits(),
            )),
            r matches Err(StreamError::Mode(_)) ==> final(l).term_mode() is None,
            !(r matches Err(StreamError::Mode(_))) && trace_delta(
                old(l).log(),
                final(l).log(),
            ).len() >= 1 ==> ({
                let d = trace_delta(old(l).log(), final(l).log());
                &&& (r == Err::<KeyStep, StreamError>(StreamError::Interrupted)
                    <==> interrupted_end(d.subrange(0, d.len() - 1)))
                &&& (r == Err::<KeyStep, StreamError>(StreamError::Eof) <==> eof_end(
                    d.subrange(0, d.len() - 1),
                ))
            }),
    {
        let ghost g0 = l.log();
        match process_key(l, 0) {
            Ok(None) => Ok(KeyStep::Pending(self)),
            Ok(Some(k)) => {
                let ghost a = trace_delta(g0, l.log());
                let ghost snap = self.config.snapshot_bits();
                let ghost disc = self.config.discards();
                match self.config.release(l) {
                    Ok(()) => {
                        proof {
                            assert(l.log() =~= g0 + a.push(mode_ev(snap, disc)));
                            assert(trace_delta(g0, l.log()) =~= a.push(mode_ev(snap, disc)));
                            assert(a.push(mode_ev(snap, disc)).subrange(
                                0,
                                a.push(mode_ev(snap, disc)).len() - 1,
                            ) =~= a);
                        }
                        Ok(KeyStep::Ready(k))
                    },
                    Err(e) => Err(e),
                }
            },
            Err(e) => {
                let ghost a = trace_delta(g0, l.log());
                let ghost snap = self.config.snapshot_bits();
                let ghost disc = self.config.discards();
                match self.config.release(l) {
                    Ok(()) => {
                        proof {
                            assert(l.log() =~= g0 + a.push(mode_ev(snap, disc)));
                            assert(trace_delta(g0, l.log()) =~= a.push(mode_ev(snap, disc)));
                            assert(a.push(mode_ev(snap, disc)).subrange(
                                0,
                                a.push(mode_ev(snap, disc)).len() - 1,
                            ) =~= a);
                        }
                        Err(e)
                    },
                    Err(e2) => Err(e2),
                }
            },
        }
    }

    /// Abandons the read. Discarding an operation in flight would leave the
    /// terminal mode changed; this explicit cancellation path restores it,
    /// and the trace records the switch back.
    pub fn cancel(self, l: &mut StdinLock) -> (r: Result<(), StreamError>)
        ensures
            final(l).canon_mask() == old(l).canon_mask(),
            final(l).echo_mask() == old(l).echo_mask(),
            r is Ok ==> final(l).term_mode() == Some(self.snapshot_bits()) && final(l).log()
                == old(l).log().push(mode_ev(self.snapshot_bits(), self.discards())),
            r matches Err(e) ==> e matches StreamError::Mode(_) && final(l).log() == old(l).log()
                && final(l).term_mode() is None,
    {
        self.config.release(l)
    }
}

impl StringReadOp {
    /// The local-mode bits captured when the operation began.
    pub closed spec fn snapshot_bits(&self) -> u64 {
        self.config.snapshot_bits()
    }

    /// Whether this operation's mode switches discard unread input.
    pub closed spec fn discards(&self) -> bool {
        self.config.discards()
    }

    /// One step of the read: exactly one zero-wait poll, never blocking the
    /// caller; the whole line is read once input is pending, and the mode
    /// restored (the trace's last event) when the operation ends.
    pub fn step(self, l: &mut StdinLock) -> (r: Result<StringStep, StreamError>)
        ensures
            final(l).canon_mask() == old(l).canon_mask(),
            final(l).echo_mask() == old(l).echo_mask(),
            old(l).log().is_prefix_of(final(l).log()),
            r matches Ok(StringStep::Pending(op)) ==> ({
                &&& trace_delta(old(l).log(), final(l).log()) == seq![poll_ev(0, false)]
                &&& final(l).term_mode() == old(l).term_mode()
                &&& op.snapshot_bits() == self.snapshot_bits()
                &&& op.discards() == self.discards()
            }),
            r matches Ok(StringStep::Ready(s)) ==> ({
                let d = trace_delta(old(l).log(), final(l).log());
                &&& d == seq![poll_ev(0, true), line_ev(s@)].push(
                    mode_ev(self.snapshot_bits(), self.discards()),
                )
                &&& final(l).term_mode() == Some(self.snapshot_bits())
            }),
            r matches Err(e) ==> (e matches StreamError::Mode(_) || final(l).term_mode() == Some(
                self.snapshot_bits(),
            )),
            r matches Err(StreamError::Mode(_)) ==> final(l).term_mode() is None,
    {
        let ghost g0 = l.log();
        match read_line_ready(l, 0) {
            Ok(None) => Ok(StringStep::Pending(self)),
            Ok(Some(s)) => {
                let ghost a = trace_delta(g0, l.log());
                let ghost snap = self.config.snapshot_bits();
                let ghost disc = self.config.discards();
                match self.config.release(l) {
                    Ok(()) => {
                        proof {
                            assert(l.log() =~= g0 + a.push(mode_ev(snap, disc)));
                            assert(trace_delta(g0, l.log()) =~= a.push(mode_ev(snap, disc)));
                        }
                        Ok(StringStep::Ready(s))
                    },
                    Err(e) => Err(e),
                }
            },
            Err(e) => {
                match self.config.release(l) {
                    Ok(()) => Err(e),
                    Err(e2) => Err(e2),
                }
            },
        }
    }

    /// Abandons the read, restoring the mode captured when it began; the
    /// trace records the switch back.
    pub fn cancel(self, l: &mut StdinLock) -> (r: Result<(), StreamError>)
        ensures
            final(l).canon_mask() == old(l).canon_mask(),
            final(l).echo_mask() == old(l).echo_mask(),
            r is Ok ==> final(l).term_mode() == Some(self.snapshot_bits()) && final(l).log()
                == old(l).log().push(mode_ev(self.snapshot_bits(), self.discards())),
            r matches Err(e) ==> e matches StreamError::Mode(_) && final(l).log() == old(l).log()
                && final(l).term_mode() is None,
    {
        self.config.release(l)
    }
}

impl StderrLock {
    /// Prints the specified string to the standard error stream.
    pub fn print(&mut self, str: &str) -> (r: Result<(), StreamError>)
        ensures
            r matches Err(e) ==> e matches StreamError::Os(_),
            r is Ok ==> final(self)@ == old(self)@ + str@,
    {
        match unix::write_stderr(self, str) {
            Ok(()) => {},
            Err(e) => {
                return Err(e);
            },
        }
        unix::flush_stderr(self)
    }

    /// Prints the specified string to the standard error stream, followed by
    /// a newline character.
    pub fn println(&mut self, str: &str) -> (r: Result<(), StreamError>)
        ensures
            r matches Err(e) ==> e matches StreamError::Os(_),
            r is Ok ==> final(self)@ == old(self)@ + str@ + "\n"@,
    {
        match unix::write_stderr(self, str) {
            Ok(()) => {},
            Err(e) => {
                return Err(e);
            },
        }
        unix::write_stderr(self, "\n")
    }
}

} // verus!
