//! The `Key` value type and the pure decoding tables of the key decoder:
//! the single-byte control table, the escape-pair table, and UTF-8 decoding
//! of a byte sequence to its first scalar.

use vstd::prelude::*;
use vstd::utf8::is_leading_byte_width_2;
use vstd::utf8::is_leading_byte_width_3;
use vstd::utf8::is_leading_byte_width_4;
use vstd::utf8::valid_first_scalar;
use vstd::utf8::decode_first_scalar;
use vstd::utf8::length_of_first_scalar;
use vstd::utf8::pop_first_scalar;
use vstd::utf8::valid_utf8;
use vstd::utf8::is_scalar;
use vstd::utf8::char_u32_cast;

verus! {

/// Represents various types of keyboard input events.
#[derive(Debug, Clone, Copy, PartialEq, Eq)]
pub enum Key {
    /// Unknown or unrecognized key
    Unknown,
    /// Left arrow key
    ArrowLeft,
    /// Right arrow key
    ArrowRight,
    /// Up arrow key
    ArrowUp,
    /// Down arrow key
    ArrowDown,
    /// Enter key
    Enter,
    /// Escape key
    Escape,
    /// Backspace key
    Backspace,
    /// Home key
    Home,
    /// End key
    End,
    /// Tab key
    Tab,
    /// BackTab (Shift + Tab) key
    BackTab,
    /// Alt key
    Alt,
    /// Delete key
    Del,
    /// Shift key
    Shift,
    /// Insert key
    Insert,
    /// Page Up key
    PageUp,
    /// Page Down key
    PageDown,
    /// A printable character (UTF-8)
    Char(char),
}

/// The key denoted by a single byte that neither starts an escape sequence
/// nor is a multi-byte UTF-8 leading byte. Exact control bytes first; any
/// other ASCII byte is a plain character. A byte at 0x80 or above that
/// reaches this table matches no UTF-8 header, so it is malformed input:
/// unknown, never an error and never a character.
pub open spec fn spec_single_key(b: u8) -> Key {
    if b == 0x0a || b == 0x0d {
        Key::Enter
    } else if b == 0x7f || b == 0x08 {
        Key::Backspace
    } else if b == 0x09 {
        Key::Tab
    } else if b == 0x01 {
        Key::Home
    } else if b == 0x05 {
        Key::End
    } else if b < 0x80 {
        Key::Char(b as char)
    } else {
        Key::Unknown
    }
}

/// Decodes a lone byte by the control table, or as a plain character.
pub fn single_key(b: u8) -> (k: Key)
    ensures
        k == spec_single_key(b),
{
    match b {
        0x0a | 0x0d => Key::Enter,
        0x7f | 0x08 => Key::Backspace,
        0x09 => Key::Tab,
        0x01 => Key::Home,
        0x05 => Key::End,
        _ => {
            if b < 0x80 {
                Key::Char(b as char)
            } else {
                Key::Unknown
            }
        },
    }
}

/// Any single ASCII byte outside the control table stands for itself as a
/// plain character.
pub proof fn lemma_plain_byte_is_char(b: u8)
    requires
        b < 0x80,
        b != 0x0a,
        b != 0x0d,
        b != 0x7f,
        b != 0x08,
        b != 0x09,
        b != 0x01,
        b != 0x05,
    ensures
        spec_single_key(b) == Key::Char(b as char),
{
}

/// A lone byte at 0x80 or above that matches no multi-byte UTF-8 header is
/// malformed input and decodes to unknown.
pub proof fn lemma_headerless_high_byte_is_unknown(b: u8)
    requires
        b >= 0x80,
        spec_utf8_followers(b) == 0,
    ensures
        spec_single_key(b) == Key::Unknown,
{
}

/// Outcome of matching the two bytes that follow a recognized escape lead-in.
#[derive(Debug, Clone, Copy, PartialEq, Eq)]
pub enum EscapeMatch {
    /// The pair finishes the sequence by itself.
    Direct(Key),
    /// The pair names a key, but only if a trailing `~` byte follows.
    Tilde(Key),
    /// The pair is not a recognized sequence.
    Unmatched,
}

/// The escape-pair table: how the two bytes after an ESC byte are matched.
/// `[A`..`[D` are the arrows, `[H`/`[F` Home/End and `[Z` BackTab, all ending
/// the sequence at once; `[1`..`[8` name a key that a trailing `~` confirms.
pub open spec fn spec_escape_pair(b1: u8, b2: u8) -> EscapeMatch {
    if b1 != 0x5b {
        EscapeMatch::Unmatched
    } else if b2 == 0x41 {
        EscapeMatch::Direct(Key::ArrowUp)
    } else if b2 == 0x42 {
        EscapeMatch::Direct(Key::ArrowDown)
    } else if b2 == 0x43 {
        EscapeMatch::Direct(Key::ArrowRight)
    } else if b2 == 0x44 {
        EscapeMatch::Direct(Key::ArrowLeft)
    } else if b2 == 0x48 {
        EscapeMatch::Direct(Key::Home)
    } else if b2 == 0x46 {
        EscapeMatch::Direct(Key::End)
    } else if b2 == 0x5a {
        EscapeMatch::Direct(Key::BackTab)
    } else if b2 == 0x31 || b2 == 0x37 {
        EscapeMatch::Tilde(Key::Home)
    } else if b2 == 0x32 {
        EscapeMatch::Tilde(Key::Insert)
    } else if b2 == 0x33 {
        EscapeMatch::Tilde(Key::Del)
    } else if b2 == 0x34 || b2 == 0x38 {
        EscapeMatch::Tilde(Key::End)
    } else if b2 == 0x35 {
        EscapeMatch::Tilde(Key::PageUp)
    } else if b2 == 0x36 {
        EscapeMatch::Tilde(Key::PageDown)
    } else {
        EscapeMatch::Unmatched
    }
}

/// Matches the two bytes read after an ESC byte against the escape-pair table.
pub fn escape_pair(b1: u8, b2: u8) -> (m: EscapeMatch)
    ensures
        m == spec_escape_pair(b1, b2),
{
    if b1 != 0x5b {
        return EscapeMatch::Unmatched;
    }
    match b2 {
        0x41 => EscapeMatch::Direct(Key::ArrowUp),
        0x42 => EscapeMatch::Direct(Key::ArrowDown),
        0x43 => EscapeMatch::Direct(Key::ArrowRight),
        0x44 => EscapeMatch::Direct(Key::ArrowLeft),
        0x48 => EscapeMatch::Direct(Key::Home),
        0x46 => EscapeMatch::Direct(Key::End),
        0x5a => EscapeMatch::Direct(Key::BackTab),
        0x31 | 0x37 => EscapeMatch::Tilde(Key::Home),
        0x32 => EscapeMatch::Tilde(Key::Insert),
        0x33 => EscapeMatch::Tilde(Key::Del),
        0x34 | 0x38 => EscapeMatch::Tilde(Key::End),
        0x35 => EscapeMatch::Tilde(Key::PageUp),
        0x36 => EscapeMatch::Tilde(Key::PageDown),
        _ => EscapeMatch::Unmatched,
    }
}

/// A digit-coded sequence is confirmed by a trailing `~`; any other trailing
/// byte makes the whole sequence unknown.
pub open spec fn spec_tilde_key(k: Key, b: u8) -> Key {
    if b == 0x7e {
        k
    } else {
        Key::Unknown
    }
}

/// Finishes a digit-coded escape sequence with its trailing byte.
pub fn tilde_key(k: Key, b: u8) -> (r: Key)
    ensures
        r == spec_tilde_key(k, b),
{
    if b == 0x7e {
        k
    } else {
        Key::Unknown
    }
}

/// How many continuation bytes the multi-byte UTF-8 leading byte `b` calls
/// for; 0 when `b` is not a multi-byte leading byte.
pub open spec fn spec_utf8_followers(b: u8) -> int {
    if is_leading_byte_width_2(b) {
        1
    } else if is_leading_byte_width_3(b) {
        2
    } else if is_leading_byte_width_4(b) {
        3
    } else {
        0
    }
}

/// Counts the continuation bytes that the leading byte `b` calls for.
pub fn utf8_followers(b: u8) -> (n: usize)
    ensures
        n == spec_utf8_followers(b),
{
    if 0xc0 <= b && b <= 0xdf {
        1
    } else if 0xe0 <= b && b <= 0xef {
        2
    } else if 0xf0 <= b && b <= 0xf7 {
        3
    } else {
        0
    }
}

/// The key a whole byte sequence stands for: its first character when the
/// bytes are a valid UTF-8 encoding, `Unknown` otherwise.
pub open spec fn spec_key_from_bytes(bs: Seq<u8>) -> Key {
    if bs.len() > 0 && valid_utf8(bs) {
        Key::Char(decode_first_scalar(bs) as char)
    } else {
        Key::Unknown
    }
}

/// Every codepoint a well-formed encoding denotes fits the width's data bits.
proof fn lemma_codepoint_bounds(b0: u8, b1: u8, b2: u8, b3: u8)
    ensures
        ((b0 & 0x7f) as u32) <= 0x7f,
        ((((b0 & 0x1f) as u32) << 6) | ((b1 & 0x3f) as u32)) <= 0x7ff,
        ((((b0 & 0x0f) as u32) << 12) | (((b1 & 0x3f) as u32) << 6) | ((b2 & 0x3f) as u32))
            <= 0xffff,
        ((((b0 & 0x07) as u32) << 18) | (((b1 & 0x3f) as u32) << 12) | (((b2 & 0x3f) as u32) << 6)
            | ((b3 & 0x3f) as u32)) <= 0x1fffff,
{
    assert(((b0 & 0x7f) as u32) <= 0x7f) by (bit_vector);
    assert(((((b0 & 0x1f) as u32) << 6) | ((b1 & 0x3f) as u32)) <= 0x7ff) by (bit_vector);
    assert(((((b0 & 0x0f) as u32) << 12) | (((b1 & 0x3f) as u32) << 6) | ((b2 & 0x3f) as u32))
        <= 0xffff) by (bit_vector);
    assert(((((b0 & 0x07) as u32) << 18) | (((b1 & 0x3f) as u32) << 12) | (((b2 & 0x3f) as u32)
        << 6) | ((b3 & 0x3f) as u32)) <= 0x1fffff) by (bit_vector);
}

/// Reads the one scalar encoded at position `i` of `v`: its value and byte
/// length, or `None` when no well-formed scalar encoding starts there.
fn parse_scalar(v: &[u8], i: usize) -> (r: Option<(u32, usize)>)
    requires
        i < v@.len(),
    ensures
        r is Some <==> valid_first_scalar(v@.skip(i as int)),
        r matches Some(p) ==> ({
            &&& p.0 == decode_first_scalar(v@.skip(i as int))
            &&& p.1 == length_of_first_scalar(v@.skip(i as int))
            &&& i + p.1 <= v@.len()
            &&& is_scalar(p.0)
        }),
{
    let ghost s = v@.skip(i as int);
    let n = v.len();
    let b0 = v[i];
    assert(s[0] == v@[i as int]);
    proof {
        lemma_codepoint_bounds(b0, 0, 0, 0);
    }
    if b0 < 0x80 {
        let sc = (b0 & 0x7f) as u32;
        Some((sc, 1))
    } else if 0xc0 <= b0 && b0 <= 0xdf {
        if n - i < 2 {
            return None;
        }
        let b1 = v[i + 1];
        assert(s[1] == v@[i + 1]);
        if !(0x80 <= b1 && b1 <= 0xbf) {
            return None;
        }
        proof {
            lemma_codepoint_bounds(b0, b1, 0, 0);
        }
        let sc = (((b0 & 0x1f) as u32) << 6) | ((b1 & 0x3f) as u32);
        if sc >= 0x80 {
            Some((sc, 2))
        } else {
            None
        }
    } else if 0xe0 <= b0 && b0 <= 0xef {
        if n - i < 3 {
            return None;
        }
        let b1 = v[i + 1];
        let b2 = v[i + 2];
        assert(s[1] == v@[i + 1] && s[2] == v@[i + 2]);
        if !(0x80 <= b1 && b1 <= 0xbf) || !(0x80 <= b2 && b2 <= 0xbf) {
            return None;
        }
        proof {
            lemma_codepoint_bounds(b0, b1, b2, 0);
        }
        let sc = (((b0 & 0x0f) as u32) << 12) | (((b1 & 0x3f) as u32) << 6) | ((b2 & 0x3f) as u32);
        if sc >= 0x800 && !(0xd800 <= sc && sc <= 0xdfff) {
            Some((sc, 3))
        } else {
            None
        }
    } else if 0xf0 <= b0 && b0 <= 0xf7 {
        if n - i < 4 {
            return None;
        }
        let b1 = v[i + 1];
        let b2 = v[i + 2];
        let b3 = v[i + 3];
        assert(s[1] == v@[i + 1] && s[2] == v@[i + 2] && s[3] == v@[i + 3]);
        if !(0x80 <= b1 && b1 <= 0xbf) || !(0x80 <= b2 && b2 <= 0xbf) || !(0x80 <= b3 && b3
            <= 0xbf) {
            return None;
        }
        proof {
            lemma_codepoint_bounds(b0, b1, b2, b3);
        }
        let sc = (((b0 & 0x07) as u32) << 18) | (((b1 & 0x3f) as u32) << 12) | (((b2 & 0x3f) as u32)
            << 6) | ((b3 & 0x3f) as u32);
        if 0x10000 <= sc && sc <= 0x10ffff {
            Some((sc, 4))
        } else {
            None
        }
    } else {
        None
    }
}

/// Decodes a whole byte sequence to the key it stands for: the first character
/// when the bytes are one valid UTF-8 encoding end to end, `Unknown` otherwise.
pub fn key_from_bytes(value: &[u8]) -> (k: Key)
    ensures
        k == spec_key_from_bytes(value@),
{
    let n = value.len();
    if n == 0 {
        return Key::Unknown;
    }
    let (sc0, l0) = match parse_scalar(value, 0) {
        Some(p) => p,
        None => {
            assert(!valid_utf8(value@));
            return Key::Unknown;
        },
    };
    assert(value@.skip(0) =~= value@);
    let mut i = l0;
    while i < n
        invariant
            0 < i <= n,
            n == value@.len(),
            valid_first_scalar(value@),
            sc0 == decode_first_scalar(value@),
            is_scalar(sc0),
            valid_utf8(value@) <==> valid_utf8(value@.skip(i as int)),
        decreases n - i,
    {
        match parse_scalar(value, i) {
            Some(p) => {
                proof {
                    let s = value@.skip(i as int);
                    assert(pop_first_scalar(s) =~= value@.skip(i + p.1));
                }
                i = i + p.1;
            },
            None => {
                proof {
                    let s = value@.skip(i as int);
                    assert(s.len() > 0);
                    assert(!valid_utf8(s));
                }
                return Key::Unknown;
            },
        }
    }
    proof {
        assert(value@.skip(n as int) =~= Seq::<u8>::empty());
        assert(valid_utf8(value@.skip(n as int)));
    }
    match char::from_u32(sc0) {
        Some(c) => {
            proof {
                char_u32_cast(c, sc0);
            }
            Key::Char(c)
        },
        None => {
            proof {
                assert(false);
            }
            Key::Unknown
        },
    }
}

impl From<&[u8]> for Key {
    /// Reads the byte sequence as UTF-8 and gives its first character, or
    /// `Unknown` when the bytes are not a valid encoding.
    fn from(value: &[u8]) -> Self {
        key_from_bytes(value)
    }
}

impl vstd::std_specs::convert::FromSpecImpl<&[u8]> for Key {
    open spec fn obeys_from_spec() -> bool {
        true
    }

    open spec fn from_spec(v: &[u8]) -> Key {
        spec_key_from_bytes(v@)
    }
}

} // verus!
