//! One key-read and one line-read attempt over the raw input stream, and the
//! exact traces each can leave. A read attempt makes one opening poll with
//! the caller's wait; every later poll inside an escape or multi-byte
//! sequence waits zero time, so decoding never blocks on a byte that may
//! never arrive.

use vstd::prelude::*;

use crate::keys::{
    escape_pair, key_from_bytes, single_key, spec_escape_pair, spec_key_from_bytes,
    spec_single_key, spec_tilde_key, spec_utf8_followers, tilde_key, utf8_followers, EscapeMatch,
    Key,
};
use crate::streams::model::{later_polls_immediate, line_ev, poll_ev, read_ev, spec_wait, Ev};
use crate::streams::unix;
use crate::streams::{StdinLock, StreamError};

verus! {

/// What a read attempt added to the stream's trace.
pub open spec fn trace_delta(pre: Seq<Ev>, post: Seq<Ev>) -> Seq<Ev> {
    post.skip(pre.len() as int)
}

/// A trace that grew from `pre` to `post` is `pre` plus its delta.
proof fn lemma_trace_split(pre: Seq<Ev>, post: Seq<Ev>)
    requires
        pre.is_prefix_of(post),
    ensures
        post == pre + trace_delta(pre, post),
{
    assert(post =~= pre + post.skip(pre.len() as int));
}

/// A trace that grew twice is the base plus both deltas.
pub(crate) proof fn lemma_trace_extend(base: Seq<Ev>, mid: Seq<Ev>, post: Seq<Ev>)
    requires
        base.is_prefix_of(mid),
        mid.is_prefix_of(post),
    ensures
        base.is_prefix_of(post),
        trace_delta(base, post) == trace_delta(base, mid) + trace_delta(mid, post),
{
    lemma_trace_split(base, mid);
    lemma_trace_split(mid, post);
    assert(base.is_prefix_of(post));
    assert(trace_delta(base, post) =~= trace_delta(base, mid) + trace_delta(mid, post));
}

/// `m` polls of `w` milliseconds that all reported nothing ready.
pub open spec fn unready_polls(w: int, m: int) -> Seq<Ev> {
    Seq::new(m as nat, |i: int| poll_ev(w, false))
}

/// The bounded wait one attempt gets out of a remaining budget: the largest
/// wait the OS poll accepts, or the whole remainder when it fits in it.
pub open spec fn chunk_wait(remaining: int) -> int {
    if remaining > i32::MAX as int {
        i32::MAX as int
    } else {
        remaining
    }
}

/// The view of one chunk read's outcome: the bytes as a sequence.
pub open spec fn chunk_view(r: Result<Option<Vec<u8>>, StreamError>) -> Result<
    Option<Seq<u8>>,
    StreamError,
> {
    match r {
        Ok(None) => Ok(None),
        Ok(Some(v)) => Ok(Some(v@)),
        Err(e) => Err(e),
    }
}

/// The exact traces one bounded chunk read can leave, by outcome: a failed
/// poll yields nothing; a ready poll is followed by one raw read, whose bytes
/// are handed back unless they are empty (end of stream) or start with the
/// interrupt byte 0x03 (cancellation).
pub open spec fn chunk_trace(w: int, n: int, d: Seq<Ev>, r: Result<
    Option<Seq<u8>>,
    StreamError,
>) -> bool {
    match r {
        Ok(ob) => match ob {
            None => d == seq![poll_ev(w, false)],
            Some(bs) => d == seq![poll_ev(w, true), read_ev(bs)] && 1 <= bs.len() <= n && bs[0]
                != 3,
        },
        Err(e) => match e {
            StreamError::Eof => d == seq![poll_ev(w, true), read_ev(Seq::empty())],
            StreamError::Interrupted => d.len() == 2 && d[0] == poll_ev(w, true) && (d[1] matches
                Ev::Read { bytes } && 1 <= bytes.len() <= n && bytes[0] == 3),
            StreamError::Os(_) => d == Seq::<Ev>::empty() || d == seq![poll_ev(w, true)],
            _ => false,
        },
    }
}

/// Polls standard input for `wait_ms` milliseconds (negative: until input
/// arrives; zero: no wait at all).
pub(crate) fn poll_input(l: &mut StdinLock, wait_ms: i32) -> (r: Result<bool, StreamError>)
    ensures
        final(l).canon_mask() == old(l).canon_mask(),
        final(l).echo_mask() == old(l).echo_mask(),
        final(l).term_mode() == old(l).term_mode(),
        r matches Ok(b) ==> final(l).log() == old(l).log().push(poll_ev(wait_ms as int, b)),
        r matches Err(e) ==> final(l).log() == old(l).log() && e matches StreamError::Os(_),
{
    let wait: Option<(i64, i64)> = if wait_ms < 0 {
        None
    } else {
        Some(((wait_ms / 1000) as i64, ((wait_ms % 1000) as i64) * 1000000))
    };
    let r = unix::poll_stdin(l, wait);
    proof {
        assert(crate::streams::model::wait_view(wait) == spec_wait(wait_ms as int));
    }
    r
}

/// Reads at most `n` bytes once the stream reports ready within `wait_ms`
/// milliseconds; classifies an empty read as end of stream and a leading
/// interrupt byte as cancellation.
pub(crate) fn read_chunk(l: &mut StdinLock, n: usize, wait_ms: i32) -> (r: Result<
    Option<Vec<u8>>,
    StreamError,
>)
    requires
        n >= 1,
    ensures
        final(l).canon_mask() == old(l).canon_mask(),
        final(l).echo_mask() == old(l).echo_mask(),
        final(l).term_mode() == old(l).term_mode(),
        old(l).log().is_prefix_of(final(l).log()),
        chunk_trace(
            wait_ms as int,
            n as int,
            trace_delta(old(l).log(), final(l).log()),
            chunk_view(r),
        ),
{
    let ghost g0 = l.log();
    let ready = match poll_input(l, wait_ms) {
        Ok(b) => b,
        Err(e) => {
            proof {
                assert(trace_delta(g0, l.log()) =~= Seq::<Ev>::empty());
            }
            return Err(e);
        },
    };
    if !ready {
        proof {
            assert(trace_delta(g0, l.log()) =~= seq![poll_ev(wait_ms as int, false)]);
        }
        return Ok(None);
    }
    let bs = match unix::read_stdin(l, n) {
        Ok(bs) => bs,
        Err(e) => {
            proof {
                assert(trace_delta(g0, l.log()) =~= seq![poll_ev(wait_ms as int, true)]);
            }
            return Err(e);
        },
    };
    proof {
        assert(trace_delta(g0, l.log()) =~= seq![poll_ev(wait_ms as int, true), read_ev(bs@)]);
    }
    if bs.len() == 0 {
        proof {
            assert(bs@ =~= Seq::<u8>::empty());
        }
        return Err(StreamError::Eof);
    }
    if bs[0] == 3 {
        return Err(StreamError::Interrupted);
    }
    Ok(Some(bs))
}

/// The tail of a successful key read after an ESC byte: either nothing more
/// was ready, which is the Escape key itself, or two more bytes were fetched
/// and matched against the escape-pair table.
pub open spec fn escape_tail(t: Seq<Ev>, k: Key) -> bool {
    if t == seq![poll_ev(0, false)] {
        k == Key::Escape
    } else {
        &&& t.len() >= 1
        &&& t[0] == poll_ev(0, true)
        &&& pair_tail(t.skip(1), k)
    }
}

/// The tail after the zero-wait gate poll reported ready: the two-byte fetch
/// and what its bytes decide.
pub open spec fn pair_tail(t: Seq<Ev>, k: Key) -> bool {
    if t == seq![poll_ev(0, false)] {
        k == Key::Unknown
    } else {
        &&& t.len() >= 2
        &&& t[0] == poll_ev(0, true)
        &&& (t[1] matches Ev::Read { bytes } && 1 <= bytes.len() <= 2 && (if bytes.len() < 2 {
            t.len() == 2 && k == Key::Unknown
        } else {
            match spec_escape_pair(bytes[0], bytes[1]) {
                EscapeMatch::Direct(dk) => t.len() == 2 && k == dk,
                EscapeMatch::Unmatched => t.len() == 2 && k == Key::Unknown,
                EscapeMatch::Tilde(tk) => tilde_tail(tk, t.skip(2), k),
            }
        }))
    }
}

/// The tail of a digit-coded sequence: the one-byte fetch of the trailing
/// `~`, or nothing ready, which makes the sequence unknown.
pub open spec fn tilde_tail(pending: Key, t: Seq<Ev>, k: Key) -> bool {
    if t == seq![poll_ev(0, false)] {
        k == Key::Unknown
    } else {
        &&& t.len() == 2
        &&& t[0] == poll_ev(0, true)
        &&& (t[1] matches Ev::Read { bytes } && bytes.len() == 1 && k == spec_tilde_key(
            pending,
            bytes[0],
        ))
    }
}

/// The tail of a multi-byte character: the zero-wait fetch of the leading
/// byte's continuation bytes, decoded as UTF-8 when all of them came.
pub open spec fn utf8_tail(b: u8, t: Seq<Ev>, k: Key) -> bool {
    if t == seq![poll_ev(0, false)] {
        k == Key::Unknown
    } else {
        &&& t.len() == 2
        &&& t[0] == poll_ev(0, true)
        &&& (t[1] matches Ev::Read { bytes } && 1 <= bytes.len() <= spec_utf8_followers(b) && (
        if bytes.len() < spec_utf8_followers(b) {
            k == Key::Unknown
        } else {
            k == spec_key_from_bytes(seq![b] + bytes)
        }))
    }
}

/// The exact traces a key read that produced a key can leave, and which key
/// each trace decodes to.
pub open spec fn key_success_trace(w: int, d: Seq<Ev>, k: Key) -> bool {
    &&& d.len() >= 2
    &&& d[0] == poll_ev(w, true)
    &&& (d[1] matches Ev::Read { bytes } && bytes.len() == 1 && (if bytes[0] == 0x1b {
        escape_tail(d.skip(2), k)
    } else if spec_utf8_followers(bytes[0]) == 0 {
        d.len() == 2 && k == spec_single_key(bytes[0])
    } else {
        utf8_tail(bytes[0], d.skip(2), k)
    }))
}

/// True when the trace ends with a read whose first byte is the interrupt
/// byte: the read was canceled by the user, whatever was in flight.
pub open spec fn interrupted_end(d: Seq<Ev>) -> bool {
    d.len() >= 1 && (d.last() matches Ev::Read { bytes } && bytes.len() >= 1 && bytes[0] == 3)
}

/// True when the trace ends with an empty read: the stream ended.
pub open spec fn eof_end(d: Seq<Ev>) -> bool {
    d.len() >= 1 && d.last() == read_ev(Seq::<u8>::empty())
}

/// Reads and decodes one key. The opening poll waits `wait_ms` milliseconds;
/// `None` means nothing was ready within that wait. Every further poll waits
/// zero time. The outcome is a function of the trace: the decoded key on
/// success; cancellation exactly when a read came back led by the interrupt
/// byte; end of stream exactly when a read came back empty.
#[verifier::rlimit(100)]
pub(crate) fn process_key(l: &mut StdinLock, wait_ms: i32) -> (r: Result<Option<Key>, StreamError>)
    ensures
        final(l).canon_mask() == old(l).canon_mask(),
        final(l).echo_mask() == old(l).echo_mask(),
        final(l).term_mode() == old(l).term_mode(),
        old(l).log().is_prefix_of(final(l).log()),
        later_polls_immediate(trace_delta(old(l).log(), final(l).log())),
        trace_delta(old(l).log(), final(l).log()).len() >= 1 ==> (trace_delta(
            old(l).log(),
            final(l).log(),
        )[0] matches Ev::Poll { wait, .. } && wait == spec_wait(wait_ms as int)),
        r == Ok::<Option<Key>, StreamError>(None) <==> trace_delta(old(l).log(), final(l).log())
            == seq![poll_ev(wait_ms as int, false)],
        r matches Ok(Some(k)) ==> key_success_trace(
            wait_ms as int,
            trace_delta(old(l).log(), final(l).log()),
            k,
        ),
        r == Err::<Option<Key>, StreamError>(StreamError::Interrupted) <==> interrupted_end(
            trace_delta(old(l).log(), final(l).log()),
        ),
        r == Err::<Option<Key>, StreamError>(StreamError::Eof) <==> eof_end(
            trace_delta(old(l).log(), final(l).log()),
        ),
        r matches Err(e) ==> (e matches StreamError::Os(_) || e == StreamError::Interrupted || e
            == StreamError::Eof),
        r matches Err(StreamError::Os(_)) ==> (forall|k: Key|
            !key_success_trace(wait_ms as int, trace_delta(old(l).log(), final(l).log()), k)),
{
    let ghost g0 = l.log();
    let w = wait_ms;
    // First byte, with the caller's wait.
    let first = match read_chunk(l, 1, w) {
        Ok(Some(bs)) => bs,
        Ok(None) => {
            return Ok(None);
        },
        Err(e) => {
            proof {
                if e matches StreamError::Os(_) {
                    assert(forall|k: Key| !key_success_trace(w as int, trace_delta(g0, l.log()), k));
                }
            }
            return Err(e);
        },
    };
    let b = first[0];
    let ghost g1 = l.log();
    proof {
        lemma_trace_split(g0, g1);
        assert(trace_delta(g0, g1) == seq![poll_ev(w as int, true), read_ev(first@)]);
        assert(first@ =~= seq![b]);
    }
    if b == 0x1b {
        // A lone ESC is the Escape key; only if more input is already
        // pending is this the start of a sequence.
        let ready = match poll_input(l, 0) {
            Ok(rd) => rd,
            Err(e) => {
                proof {
                    assert(trace_delta(g0, l.log()) == trace_delta(g0, g1));
                    assert(trace_delta(g0, g1).skip(2) =~= Seq::<Ev>::empty());
                    assert(forall|k: Key| !key_success_trace(w as int, trace_delta(g0, l.log()), k));
                }
                return Err(e);
            },
        };
        let ghost g2 = l.log();
        proof {
            assert(g2 == g1.push(poll_ev(0, ready)));
            assert(trace_delta(g0, g2) =~= trace_delta(g0, g1).push(poll_ev(0, ready)));
        }
        if !ready {
            proof {
                assert(trace_delta(g0, g2).skip(2) =~= seq![poll_ev(0, false)]);
            }
            return Ok(Some(Key::Escape));
        }
        // The two bytes that name the sequence.
        let pair = match read_chunk(l, 2, 0) {
            Ok(Some(bs)) => bs,
            Ok(None) => {
                proof {
                    lemma_trace_split(g2, l.log());
                    assert(trace_delta(g0, l.log()) =~= trace_delta(g0, g2) + trace_delta(
                        g2,
                        l.log(),
                    ));
                    assert(trace_delta(g0, l.log()).skip(2) =~= seq![poll_ev(0, true)]
                        + seq![poll_ev(0, false)]);
                    assert(trace_delta(g0, l.log()).skip(2).skip(1) =~= seq![poll_ev(0, false)]);
                }
                return Ok(Some(Key::Unknown));
            },
            Err(e) => {
                proof {
                    lemma_trace_split(g2, l.log());
                    assert(trace_delta(g0, l.log()) =~= trace_delta(g0, g2) + trace_delta(
                        g2,
                        l.log(),
                    ));
                    if e matches StreamError::Os(_) {
                        let cd = trace_delta(g2, l.log());
                        assert(trace_delta(g0, l.log()).skip(2) =~= seq![poll_ev(0, true)] + cd);
                        assert((seq![poll_ev(0, true)] + cd).skip(1) =~= cd);
                        assert(forall|k: Key|
                            !key_success_trace(w as int, trace_delta(g0, l.log()), k));
                    }
                }
                return Err(e);
            },
        };
        let ghost g3 = l.log();
        proof {
            lemma_trace_split(g2, g3);
            assert(trace_delta(g0, g3) =~= trace_delta(g0, g2) + trace_delta(g2, g3));
            assert(trace_delta(g0, g3).skip(2) =~= seq![poll_ev(0, true)] + trace_delta(g2, g3));
            assert(trace_delta(g0, g3).skip(2).skip(1) =~= trace_delta(g2, g3));
        }
        if pair.len() < 2 {
            return Ok(Some(Key::Unknown));
        }
        match escape_pair(pair[0], pair[1]) {
            EscapeMatch::Direct(k) => Ok(Some(k)),
            EscapeMatch::Unmatched => Ok(Some(Key::Unknown)),
            EscapeMatch::Tilde(k) => {
                // A digit-coded key needs its trailing tilde.
                let third = match read_chunk(l, 1, 0) {
                    Ok(Some(bs)) => bs,
                    Ok(None) => {
                        proof {
                            lemma_trace_split(g3, l.log());
                            assert(trace_delta(g0, l.log()) =~= trace_delta(g0, g3) + trace_delta(
                                g3,
                                l.log(),
                            ));
                            assert(trace_delta(g0, l.log()).skip(2).skip(1) =~= trace_delta(g2, g3)
                                + seq![poll_ev(0, false)]);
                            assert((trace_delta(g2, g3) + seq![poll_ev(0, false)]).skip(2)
                                =~= seq![poll_ev(0, false)]);
                        }
                        return Ok(Some(Key::Unknown));
                    },
                    Err(e) => {
                        proof {
                            lemma_trace_split(g3, l.log());
                            assert(trace_delta(g0, l.log()) =~= trace_delta(g0, g3) + trace_delta(
                                g3,
                                l.log(),
                            ));
                            if e matches StreamError::Os(_) {
                                let cd = trace_delta(g3, l.log());
                                assert(trace_delta(g0, l.log()).skip(2) =~= seq![poll_ev(0, true)]
                                    + (trace_delta(g2, g3) + cd));
                                assert((seq![poll_ev(0, true)] + (trace_delta(g2, g3) + cd)).skip(1)
                                    =~= trace_delta(g2, g3) + cd);
                                assert((trace_delta(g2, g3) + cd).skip(2) =~= cd);
                                assert(forall|k2: Key|
                                    !key_success_trace(w as int, trace_delta(g0, l.log()), k2));
                            }
                        }
                        return Err(e);
                    },
                };
                let ghost g4 = l.log();
                proof {
                    lemma_trace_split(g3, g4);
                    assert(trace_delta(g0, g4) =~= trace_delta(g0, g3) + trace_delta(g3, g4));
                    assert(trace_delta(g0, g4).skip(2).skip(1) =~= trace_delta(g2, g3)
                        + trace_delta(g3, g4));
                    assert((trace_delta(g2, g3) + trace_delta(g3, g4)).skip(2) =~= trace_delta(
                        g3,
                        g4,
                    ));
                }
                Ok(Some(tilde_key(k, third[0])))
            },
        }
    } else {
        let need = utf8_followers(b);
        if need == 0 {
            return Ok(Some(single_key(b)));
        }
        // The continuation bytes of a multi-byte character, already in
        // flight, fetched with zero wait.
        let cont = match read_chunk(l, need, 0) {
            Ok(Some(bs)) => bs,
            Ok(None) => {
                proof {
                    lemma_trace_split(g1, l.log());
                    assert(trace_delta(g0, l.log()) =~= trace_delta(g0, g1) + trace_delta(
                        g1,
                        l.log(),
                    ));
                    assert(trace_delta(g0, l.log()).skip(2) =~= seq![poll_ev(0, false)]);
                }
                return Ok(Some(Key::Unknown));
            },
            Err(e) => {
                proof {
                    lemma_trace_split(g1, l.log());
                    assert(trace_delta(g0, l.log()) =~= trace_delta(g0, g1) + trace_delta(
                        g1,
                        l.log(),
                    ));
                    if e matches StreamError::Os(_) {
                        let cd = trace_delta(g1, l.log());
                        assert(trace_delta(g0, l.log()).skip(2) =~= cd);
                        assert(forall|k: Key|
                            !key_success_trace(w as int, trace_delta(g0, l.log()), k));
                    }
                }
                return Err(e);
            },
        };
        let ghost g2 = l.log();
        proof {
            lemma_trace_split(g1, g2);
            assert(trace_delta(g0, g2) =~= trace_delta(g0, g1) + trace_delta(g1, g2));
            assert(trace_delta(g0, g2).skip(2) =~= trace_delta(g1, g2));
        }
        if cont.len() < need {
            return Ok(Some(Key::Unknown));
        }
        // The whole character: leading byte plus its continuation bytes.
        let mut full: Vec<u8> = Vec::new();
        full.push(b);
        let mut j: usize = 0;
        while j < cont.len()
            invariant
                j <= cont@.len(),
                full@ == seq![b] + cont@.subrange(0, j as int),
            decreases cont@.len() - j,
        {
            full.push(cont[j]);
            proof {
                assert(full@ =~= seq![b] + cont@.subrange(0, j + 1));
            }
            j = j + 1;
        }
        proof {
            assert(cont@.subrange(0, cont@.len() as int) =~= cont@);
        }
        let k = key_from_bytes(full.as_slice());
        Ok(Some(k))
    }
}

/// A key read that consumed one byte outside the escape and multi-byte
/// ranges decodes it by the single-byte table: every plain byte comes back
/// as itself.
pub proof fn lemma_single_byte_key(w: int, b: u8, k: Key)
    requires
        b != 0x1b,
        spec_utf8_followers(b) == 0,
        key_success_trace(w, seq![poll_ev(w, true), read_ev(seq![b])], k),
    ensures
        k == spec_single_key(b),
{
}

/// A lone ESC byte with nothing pending behind it is the Escape key.
pub proof fn lemma_lone_escape(w: int, k: Key)
    requires
        key_success_trace(
            w,
            seq![poll_ev(w, true), read_ev(seq![0x1b]), poll_ev(0, false)],
            k,
        ),
    ensures
        k == Key::Escape,
{
    let d = seq![poll_ev(w, true), read_ev(seq![0x1bu8]), poll_ev(0, false)];
    assert(d.skip(2) =~= seq![poll_ev(0, false)]);
}

/// The full trace of an escape sequence whose two bytes the pair table
/// answers at once (`[A`..`[D`, `[H`, `[F`, `[Z`): its key is the table's,
/// and exactly three bytes were consumed.
pub proof fn lemma_escape_direct(w: int, b2: u8, dk: Key, k: Key)
    requires
        spec_escape_pair(0x5b, b2) == EscapeMatch::Direct(dk),
        key_success_trace(
            w,
            seq![
                poll_ev(w, true),
                read_ev(seq![0x1b]),
                poll_ev(0, true),
                poll_ev(0, true),
                read_ev(seq![0x5b, b2]),
            ],
            k,
        ),
    ensures
        k == dk,
{
    let d = seq![
        poll_ev(w, true),
        read_ev(seq![0x1bu8]),
        poll_ev(0, true),
        poll_ev(0, true),
        read_ev(seq![0x5bu8, b2]),
    ];
    assert(d.skip(2) =~= seq![poll_ev(0, true), poll_ev(0, true), read_ev(seq![0x5bu8, b2])]);
    assert(d.skip(2)[0] == poll_ev(0, true));
    assert(d.skip(2).skip(1) =~= seq![poll_ev(0, true), read_ev(seq![0x5bu8, b2])]);
}

/// The full trace of a digit-coded escape sequence with its trailing byte:
/// the digit names the key and the trailing byte must be `~`, else the whole
/// sequence is unknown.
pub proof fn lemma_escape_tilde(w: int, b2: u8, tk: Key, b3: u8, k: Key)
    requires
        spec_escape_pair(0x5b, b2) == EscapeMatch::Tilde(tk),
        key_success_trace(
            w,
            seq![
                poll_ev(w, true),
                read_ev(seq![0x1b]),
                poll_ev(0, true),
                poll_ev(0, true),
                read_ev(seq![0x5b, b2]),
                poll_ev(0, true),
                read_ev(seq![b3]),
            ],
            k,
        ),
    ensures
        k == spec_tilde_key(tk, b3),
{
    let d = seq![
        poll_ev(w, true),
        read_ev(seq![0x1bu8]),
        poll_ev(0, true),
        poll_ev(0, true),
        read_ev(seq![0x5bu8, b2]),
        poll_ev(0, true),
        read_ev(seq![b3]),
    ];
    assert(d.skip(2) =~= seq![
        poll_ev(0, true),
        poll_ev(0, true),
        read_ev(seq![0x5bu8, b2]),
        poll_ev(0, true),
        read_ev(seq![b3]),
    ]);
    assert(d.skip(2).skip(1) =~= seq![
        poll_ev(0, true),
        read_ev(seq![0x5bu8, b2]),
        poll_ev(0, true),
        read_ev(seq![b3]),
    ]);
    assert(d.skip(2).skip(1).skip(2) =~= seq![poll_ev(0, true), read_ev(seq![b3])]);
}

/// The full trace of an escape sequence whose two bytes the pair table does
/// not know: the key is unknown, never an error, and exactly three bytes
/// were consumed — no trailing byte is fetched.
pub proof fn lemma_escape_unknown(w: int, b1: u8, b2: u8, k: Key)
    requires
        spec_escape_pair(b1, b2) == EscapeMatch::Unmatched,
        key_success_trace(
            w,
            seq![
                poll_ev(w, true),
                read_ev(seq![0x1b]),
                poll_ev(0, true),
                poll_ev(0, true),
                read_ev(seq![b1, b2]),
            ],
            k,
        ),
    ensures
        k == Key::Unknown,
{
    let d = seq![
        poll_ev(w, true),
        read_ev(seq![0x1bu8]),
        poll_ev(0, true),
        poll_ev(0, true),
        read_ev(seq![b1, b2]),
    ];
    assert(d.skip(2) =~= seq![poll_ev(0, true), poll_ev(0, true), read_ev(seq![b1, b2])]);
    assert(d.skip(2).skip(1) =~= seq![poll_ev(0, true), read_ev(seq![b1, b2])]);
}

/// A two-byte character: a non-overlong two-byte leading byte and one
/// continuation byte decode to exactly the scalar their data bits spell.
pub proof fn lemma_utf8_two_byte(w: int, a: u8, b: u8, k: Key)
    requires
        0xc2 <= a <= 0xdf,
        0x80 <= b <= 0xbf,
        key_success_trace(
            w,
            seq![poll_ev(w, true), read_ev(seq![a]), poll_ev(0, true), read_ev(seq![b])],
            k,
        ),
    ensures
        k == Key::Char(vstd::utf8::codepoint_width_2(a, b) as char),
{
    let d = seq![poll_ev(w, true), read_ev(seq![a]), poll_ev(0, true), read_ev(seq![b])];
    assert(d.skip(2) =~= seq![poll_ev(0, true), read_ev(seq![b])]);
    let bs = seq![a, b];
    assert(seq![a] + seq![b] =~= bs);
    assert(vstd::utf8::is_leading_byte_width_2(a));
    assert(vstd::utf8::is_continuation_byte(b));
    assert(vstd::utf8::codepoint_width_2(a, b) >= 0x80) by (bit_vector)
        requires
            0xc2 <= a <= 0xdf,
    ;
    assert(vstd::utf8::codepoint_width_2(a, b) <= 0x7ff) by (bit_vector);
    assert(vstd::utf8::valid_first_scalar(bs));
    assert(vstd::utf8::pop_first_scalar(bs) =~= Seq::<u8>::empty());
    assert(vstd::utf8::valid_utf8(vstd::utf8::pop_first_scalar(bs)));
    assert(vstd::utf8::valid_utf8(bs));
    assert(spec_key_from_bytes(bs) == Key::Char(vstd::utf8::codepoint_width_2(a, b) as char));
}

/// A multi-byte leading byte whose continuation bytes never came decodes to
/// unknown, never to a partial character.
pub proof fn lemma_utf8_truncated(w: int, a: u8, k: Key)
    requires
        spec_utf8_followers(a) >= 1,
        key_success_trace(
            w,
            seq![poll_ev(w, true), read_ev(seq![a]), poll_ev(0, false)],
            k,
        ),
    ensures
        k == Key::Unknown,
{
    let d = seq![poll_ev(w, true), read_ev(seq![a]), poll_ev(0, false)];
    assert(d.skip(2) =~= seq![poll_ev(0, false)]);
}

/// With a zero budget, the only trace a timeout read that found nothing can
/// leave is a single poll with no wait at all: it returns at once, without
/// blocking.
pub proof fn lemma_zero_budget_single_poll(m: int)
    requires
        0 <= m,
        m >= 1 ==> 0 > m * (i32::MAX as int),
    ensures
        m == 0,
        unready_polls(i32::MAX as int, m).push(poll_ev(0 - m * (i32::MAX as int), false))
            == seq![poll_ev(0, false)],
{
    assert(unready_polls(i32::MAX as int, 0).push(poll_ev(0, false)) =~= seq![poll_ev(0, false)]);
}

/// The exact traces one line-read attempt can leave: a failed poll yields
/// nothing; a ready poll is followed by one buffered line read. A failed
/// line read may still have consumed one line's worth of bytes, which are
/// dropped: its trace then holds a line event with unknown text.
pub open spec fn line_trace(w: int, d: Seq<Ev>, r: Result<Option<Seq<char>>, StreamError>) -> bool {
    match r {
        Ok(ob) => match ob {
            None => d == seq![poll_ev(w, false)],
            Some(s) => d == seq![poll_ev(w, true), line_ev(s)],
        },
        Err(e) => match e {
            StreamError::Os(_) => d == Seq::<Ev>::empty() || d == seq![poll_ev(w, true)] || (
            d.len() == 2 && d[0] == poll_ev(w, true) && d[1] matches Ev::Line { .. }),
            _ => false,
        },
    }
}

/// The view of one line read's outcome: the text as a character sequence.
pub open spec fn line_view(r: Result<Option<String>, StreamError>) -> Result<
    Option<Seq<char>>,
    StreamError,
> {
    match r {
        Ok(None) => Ok(None),
        Ok(Some(s)) => Ok(Some(s@)),
        Err(e) => Err(e),
    }
}

/// Reads one whole line once the stream reports ready within `wait_ms`
/// milliseconds; `None` means nothing was ready within that wait.
pub(crate) fn read_line_ready(l: &mut StdinLock, wait_ms: i32) -> (r: Result<
    Option<String>,
    StreamError,
>)
    ensures
        final(l).canon_mask() == old(l).canon_mask(),
        final(l).echo_mask() == old(l).echo_mask(),
        final(l).term_mode() == old(l).term_mode(),
        old(l).log().is_prefix_of(final(l).log()),
        line_trace(wait_ms as int, trace_delta(old(l).log(), final(l).log()), line_view(r)),
{
    let ghost g0 = l.log();
    let ready = match poll_input(l, wait_ms) {
        Ok(b) => b,
        Err(e) => {
            proof {
                assert(trace_delta(g0, l.log()) =~= Seq::<Ev>::empty());
            }
            return Err(e);
        },
    };
    if !ready {
        proof {
            assert(trace_delta(g0, l.log()) =~= seq![poll_ev(wait_ms as int, false)]);
        }
        return Ok(None);
    }
    match unix::read_line_stdin(l) {
        Ok(s) => {
            proof {
                assert(trace_delta(g0, l.log()) =~= seq![
                    poll_ev(wait_ms as int, true),
                    line_ev(s@),
                ]);
            }
            Ok(Some(s))
        },
        Err(e) => {
            proof {
                let g1 = g0.push(poll_ev(wait_ms as int, true));
                if l.log() == g1 {
                    assert(trace_delta(g0, l.log()) =~= seq![poll_ev(wait_ms as int, true)]);
                } else {
                    let t = choose|t: Seq<char>| l.log() == g1.push(Ev::Line { text: t });
                    assert(l.log() == g1.push(line_ev(t)));
                    assert(trace_delta(g0, l.log()) =~= seq![
                        poll_ev(wait_ms as int, true),
                        line_ev(t),
                    ]);
                }
            }
            Err(e)
        },
    }
}

} // verus!
