//! The mathematical model of the raw input stream: the observable actions a
//! stdin lock performs (readiness polls, raw reads, buffered line reads), as
//! a ghost trace that the read disciplines' contracts are stated over.

use vstd::prelude::*;

verus! {

/// One observable action on the raw input stream.
pub enum Ev {
    /// A readiness poll: the bounded wait it was given, as whole seconds and
    /// nanoseconds (`None` waits until input arrives), and its answer.
    Poll { wait: Option<(int, int)>, ready: bool },
    /// A raw read, with exactly the bytes it yielded.
    Read { bytes: Seq<u8> },
    /// A buffered read of one whole line, with the text it yielded.
    Line { text: Seq<char> },
    /// A change of the terminal's line discipline: the local-mode bits it
    /// was set to, and whether unread buffered input was discarded at the
    /// switch.
    Mode { bits: u64, discard: bool },
}

/// The bounded wait handed to the OS poll for a wait of `ms` milliseconds;
/// a negative `ms` asks for an unbounded wait.
pub open spec fn spec_wait(ms: int) -> Option<(int, int)> {
    if ms < 0 {
        None
    } else {
        Some((ms / 1000, (ms % 1000) * 1000000))
    }
}

/// The poll event a wait of `ms` milliseconds answered with `ready` leaves.
pub open spec fn poll_ev(ms: int, ready: bool) -> Ev {
    Ev::Poll { wait: spec_wait(ms), ready }
}

/// The event a raw read that yielded `bytes` leaves.
pub open spec fn read_ev(bytes: Seq<u8>) -> Ev {
    Ev::Read { bytes }
}

/// The event a whole-line read that yielded `text` leaves.
pub open spec fn line_ev(text: Seq<char>) -> Ev {
    Ev::Line { text }
}

/// The event a successful mode change leaves.
pub open spec fn mode_ev(bits: u64, discard: bool) -> Ev {
    Ev::Mode { bits, discard }
}

/// The wait argument of a poll wrapper call, as plain integers.
pub open spec fn wait_view(w: Option<(i64, i64)>) -> Option<(int, int)> {
    match w {
        Some(p) => Some((p.0 as int, p.1 as int)),
        None => None,
    }
}

/// True when every poll in `evs` after the first waited zero time: past its
/// opening poll a read never blocks.
pub open spec fn later_polls_immediate(evs: Seq<Ev>) -> bool {
    forall|i: int|
        1 <= i < evs.len() ==> ((#[trigger] evs[i]) matches Ev::Poll { wait, .. } ==> wait
            == spec_wait(0))
}

} // verus!
