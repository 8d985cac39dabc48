//! The mode guard: captures the terminal's attributes, applies the flags a
//! read asks for, and restores the captured attributes when the read ends.

use vstd::prelude::*;

use crate::streams::model::{mode_ev, Ev};
use crate::streams::unix::{apply_termios, query_termios, SetWhen};
use crate::streams::{StdinLock, StreamError};

verus! {

/// The line-discipline settings a read asks for: callers pass the desired
/// final state of each pair, not a delta.
#[derive(Debug, Clone, Copy, PartialEq, Eq)]
pub enum Flag {
    /// Line-buffered input with editing.
    Canonical,
    /// Typed characters are echoed back.
    Echo,
    /// Byte-immediate input.
    NotCanonical,
    /// Typed characters are not echoed.
    NotEcho,
}

/// One flag applied to the local-mode bits: it sets or clears the canonical
/// or echo bit and leaves every other bit alone.
pub open spec fn spec_apply_flag(bits: u64, f: Flag, icanon: u64, echo: u64) -> u64 {
    match f {
        Flag::Canonical => bits | icanon,
        Flag::Echo => bits | echo,
        Flag::NotCanonical => bits & !icanon,
        Flag::NotEcho => bits & !echo,
    }
}

/// The requested flags applied to the local-mode bits, first to last.
pub open spec fn spec_apply_flags(bits: u64, fs: Seq<Flag>, icanon: u64, echo: u64) -> u64
    decreases fs.len(),
{
    if fs.len() == 0 {
        bits
    } else {
        spec_apply_flags(spec_apply_flag(bits, fs[0], icanon, echo), fs.skip(1), icanon, echo)
    }
}

/// The flags a key read runs under: byte-immediate, no echo.
pub open spec fn key_read_flags() -> Seq<Flag> {
    seq![Flag::NotCanonical, Flag::NotEcho]
}

/// The flags a plain blocking line read runs under: canonical, no echo.
pub open spec fn line_read_flags() -> Seq<Flag> {
    seq![Flag::Canonical, Flag::NotEcho]
}

/// The flags an echoing line read runs under: canonical, echoing.
pub open spec fn echo_line_read_flags() -> Seq<Flag> {
    seq![Flag::Canonical, Flag::Echo]
}

/// Applying flags whose bits and masks fit the 32-bit flag word yields bits
/// that fit it too: setting a bit within the word cannot leave it, and
/// clearing one only shrinks the value.
proof fn lemma_apply_flags_bounded(bits: u64, fs: Seq<Flag>, icanon: u64, echo: u64)
    requires
        bits <= u32::MAX as u64,
        icanon <= u32::MAX as u64,
        echo <= u32::MAX as u64,
    ensures
        spec_apply_flags(bits, fs, icanon, echo) <= u32::MAX as u64,
    decreases fs.len(),
{
    if fs.len() > 0 {
        let b2 = spec_apply_flag(bits, fs[0], icanon, echo);
        assert((bits | icanon) <= 0xffffffffu64 && (bits | echo) <= 0xffffffffu64 && (bits
            & !icanon) <= 0xffffffffu64 && (bits & !echo) <= 0xffffffffu64) by (bit_vector)
            requires
                bits <= 0xffffffffu64 && icanon <= 0xffffffffu64 && echo <= 0xffffffffu64,
        ;
        lemma_apply_flags_bounded(b2, fs.skip(1), icanon, echo);
    }
}

/// Applies the requested flags to the local-mode bits, first to last.
fn apply_flags(bits: u64, flags: &[Flag], icanon: u64, echo: u64) -> (r: u64)
    ensures
        r == spec_apply_flags(bits, flags@, icanon, echo),
{
    let mut cur = bits;
    let mut i: usize = 0;
    proof {
        assert(flags@.skip(0) =~= flags@);
    }
    while i < flags.len()
        invariant
            i <= flags@.len(),
            spec_apply_flags(bits, flags@, icanon, echo) == spec_apply_flags(
                cur,
                flags@.skip(i as int),
                icanon,
                echo,
            ),
        decreases flags@.len() - i,
    {
        let ghost rest = flags@.skip(i as int);
        proof {
            assert(rest[0] == flags@[i as int]);
            assert(rest.skip(1) =~= flags@.skip(i + 1));
        }
        cur = match flags[i] {
            Flag::Canonical => cur | icanon,
            Flag::Echo => cur | echo,
            Flag::NotCanonical => cur & !icanon,
            Flag::NotEcho => cur & !echo,
        };
        i = i + 1;
    }
    proof {
        assert(flags@.skip(flags@.len() as int) =~= Seq::<Flag>::empty());
    }
    cur
}

/// The guard bracket of a completed read's trace: its first event switches
/// the mode to the requested flags applied to the captured snapshot, its
/// last event switches back to the snapshot exactly, both with the given
/// discard policy, and the snapshot is the mode tracked before the read.
pub open spec fn mode_bracket(
    d: Seq<Ev>,
    fs: Seq<Flag>,
    icanon: u64,
    echo: u64,
    discard: bool,
    prior: Option<u64>,
) -> bool {
    &&& d.len() >= 2
    &&& (d.last() matches Ev::Mode { bits: snap, discard: rd } && ({
        &&& rd == discard
        &&& d[0] == mode_ev(spec_apply_flags(snap, fs, icanon, echo), discard)
        &&& (prior matches Some(b) ==> snap == b)
    }))
}

/// The part of a completed read's trace between the guard's two mode
/// switches: the polls and reads themselves.
pub open spec fn bracket_inner(d: Seq<Ev>) -> Seq<Ev> {
    d.subrange(1, d.len() - 1)
}

/// The snapshot a completed read's guard restored: the bits of the trace's
/// last event.
pub open spec fn restored_bits(d: Seq<Ev>) -> u64
    recommends
        d.len() >= 1,
        d.last() matches Ev::Mode { .. },
{
    match d.last() {
        Ev::Mode { bits, .. } => bits,
        _ => 0,
    }
}

/// The scoped owner of a temporary terminal-mode change. It holds the
/// attributes captured when it was made; `release` puts exactly those back.
pub struct Config {
    original: rustix::termios::Termios,
    original_bits: u32,
    flush: bool,
}

impl Config {
    /// The local-mode bits captured when this guard was made. They fit the
    /// 32-bit flag word the OS calls take.
    pub closed spec fn snapshot_bits(&self) -> u64 {
        self.original_bits as u64
    }

    /// Whether this guard's mode changes discard unread buffered input.
    pub closed spec fn discards(&self) -> bool {
        self.flush
    }

    /// Captures the terminal's current attributes and applies the requested
    /// flags on top of them; the trace records the switch. `flush` discards
    /// unread buffered input at the switch, so stray keystrokes from before
    /// do not leak into the read. On failure nothing was recorded, and
    /// either the query failed before any change was attempted (the mode is
    /// as it was) or the change itself failed (the mode is no longer known).
    /// The guard carries the whole captured attribute set; the model speaks
    /// only of the local-mode bits, so that no other attribute is touched
    /// rests on the trusted set call, which applies the captured attributes
    /// with only those bits replaced.
    pub fn set(l: &mut StdinLock, flush: bool, flags: &[Flag]) -> (r: Result<Config, StreamError>)
        ensures
            final(l).canon_mask() == old(l).canon_mask(),
            final(l).echo_mask() == old(l).echo_mask(),
            r matches Ok(c) ==> ({
                &&& (old(l).term_mode() matches Some(b) ==> c.snapshot_bits() == b)
                &&& c.discards() == flush
                &&& final(l).term_mode() == Some(
                    spec_apply_flags(
                        c.snapshot_bits(),
                        flags@,
                        old(l).canon_mask(),
                        old(l).echo_mask(),
                    ),
                )
                &&& final(l).log() == old(l).log().push(
                    mode_ev(
                        spec_apply_flags(
                            c.snapshot_bits(),
                            flags@,
                            old(l).canon_mask(),
                            old(l).echo_mask(),
                        ),
                        flush,
                    ),
                )
            }),
            r matches Err(e) ==> ({
                &&& e matches StreamError::Mode(_)
                &&& final(l).log() == old(l).log()
                &&& (final(l).term_mode() == old(l).term_mode() || final(l).term_mode() is None)
            }),
    {
        let (original, bits) = match query_termios(l) {
            Ok(p) => p,
            Err(e) => {
                return Err(e);
            },
        };
        let new_bits = apply_flags(bits, flags, l.icanon as u64, l.echo as u64);
        proof {
            lemma_apply_flags_bounded(bits, flags@, l.icanon as u64, l.echo as u64);
        }
        let when = if flush {
            SetWhen::DiscardInput
        } else {
            SetWhen::Drain
        };
        match apply_termios(l, &original, new_bits, when) {
            Ok(()) => Ok(Config { original, original_bits: bits as u32, flush }),
            Err(e) => Err(e),
        }
    }

    /// Puts back the attributes captured when the guard was made; the trace
    /// records the switch. This is the one step of a read that cannot be
    /// retried: if it fails, the terminal is left in an unknown mode.
    pub fn release(self, l: &mut StdinLock) -> (r: Result<(), StreamError>)
        ensures
            final(l).canon_mask() == old(l).canon_mask(),
            final(l).echo_mask() == old(l).echo_mask(),
            r is Ok ==> final(l).term_mode() == Some(self.snapshot_bits()) && final(l).log()
                == old(l).log().push(mode_ev(self.snapshot_bits(), self.discards())),
            r matches Err(e) ==> e matches StreamError::Mode(_) && final(l).log() == old(l).log()
                && final(l).term_mode() is None,
    {
        let when = if self.flush {
            SetWhen::DiscardInput
        } else {
            SetWhen::Now
        };
        apply_termios(l, &self.original, self.original_bits as u64, when)
    }
}

} // verus!
