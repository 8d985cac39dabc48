use in_keys::keys::{escape_pair, key_from_bytes, single_key, tilde_key, utf8_followers, EscapeMatch, Key};

#[test]
fn plain_ascii_bytes_decode_to_themselves() {
    for b in 0u8..128 {
        if matches!(b, 0x0a | 0x0d | 0x7f | 0x08 | 0x09 | 0x01 | 0x05) {
            continue;
        }
        assert_eq!(single_key(b), Key::Char(b as char));
    }
}

#[test]
fn control_bytes_decode_by_the_table() {
    assert_eq!(single_key(b'\n'), Key::Enter);
    assert_eq!(single_key(b'\r'), Key::Enter);
    assert_eq!(single_key(0x7f), Key::Backspace);
    assert_eq!(single_key(0x08), Key::Backspace);
    assert_eq!(single_key(b'\t'), Key::Tab);
    assert_eq!(single_key(0x01), Key::Home);
    assert_eq!(single_key(0x05), Key::End);
}

#[test]
fn high_bytes_outside_multibyte_headers_are_unknown() {
    // A stray continuation byte or an invalid lead matches no UTF-8 header:
    // malformed input is unknown, never a character and never an error.
    assert_eq!(single_key(0x80), Key::Unknown);
    assert_eq!(single_key(0xbf), Key::Unknown);
    assert_eq!(single_key(0xf8), Key::Unknown);
    assert_eq!(single_key(0xff), Key::Unknown);
}

#[test]
fn arrow_sequences_finish_at_once() {
    assert_eq!(escape_pair(b'[', b'A'), EscapeMatch::Direct(Key::ArrowUp));
    assert_eq!(escape_pair(b'[', b'B'), EscapeMatch::Direct(Key::ArrowDown));
    assert_eq!(escape_pair(b'[', b'C'), EscapeMatch::Direct(Key::ArrowRight));
    assert_eq!(escape_pair(b'[', b'D'), EscapeMatch::Direct(Key::ArrowLeft));
    assert_eq!(escape_pair(b'[', b'H'), EscapeMatch::Direct(Key::Home));
    assert_eq!(escape_pair(b'[', b'F'), EscapeMatch::Direct(Key::End));
    assert_eq!(escape_pair(b'[', b'Z'), EscapeMatch::Direct(Key::BackTab));
}

#[test]
fn digit_sequences_wait_for_their_tilde() {
    assert_eq!(escape_pair(b'[', b'1'), EscapeMatch::Tilde(Key::Home));
    assert_eq!(escape_pair(b'[', b'2'), EscapeMatch::Tilde(Key::Insert));
    assert_eq!(escape_pair(b'[', b'3'), EscapeMatch::Tilde(Key::Del));
    assert_eq!(escape_pair(b'[', b'4'), EscapeMatch::Tilde(Key::End));
    assert_eq!(escape_pair(b'[', b'5'), EscapeMatch::Tilde(Key::PageUp));
    assert_eq!(escape_pair(b'[', b'6'), EscapeMatch::Tilde(Key::PageDown));
    assert_eq!(escape_pair(b'[', b'7'), EscapeMatch::Tilde(Key::Home));
    assert_eq!(escape_pair(b'[', b'8'), EscapeMatch::Tilde(Key::End));
}

#[test]
fn unrecognized_pairs_are_unknown() {
    assert_eq!(escape_pair(b'[', b'9'), EscapeMatch::Unmatched);
    assert_eq!(escape_pair(b'[', b'x'), EscapeMatch::Unmatched);
    assert_eq!(escape_pair(b'O', b'A'), EscapeMatch::Unmatched);
}

#[test]
fn tilde_confirms_a_digit_coded_key() {
    assert_eq!(tilde_key(Key::PageUp, b'~'), Key::PageUp);
    assert_eq!(tilde_key(Key::PageUp, b'x'), Key::Unknown);
    assert_eq!(tilde_key(Key::Del, 0x00), Key::Unknown);
}

#[test]
fn leading_bytes_ask_for_their_continuations() {
    assert_eq!(utf8_followers(b'a'), 0);
    assert_eq!(utf8_followers(0x80), 0);
    assert_eq!(utf8_followers(0xc3), 1);
    assert_eq!(utf8_followers(0xdf), 1);
    assert_eq!(utf8_followers(0xe2), 2);
    assert_eq!(utf8_followers(0xf0), 3);
    assert_eq!(utf8_followers(0xf7), 3);
    assert_eq!(utf8_followers(0xf8), 0);
    assert_eq!(utf8_followers(0xff), 0);
}

#[test]
fn two_byte_sequences_decode_to_their_scalar() {
    assert_eq!(key_from_bytes(&[0xc3, 0xa9]), Key::Char('\u{e9}'));
    assert_eq!(key_from_bytes(&[0xc2, 0x80]), Key::Char('\u{80}'));
    assert_eq!(key_from_bytes(&[0xdf, 0xbf]), Key::Char('\u{7ff}'));
}

#[test]
fn three_and_four_byte_sequences_decode_to_their_scalar() {
    assert_eq!(key_from_bytes(&[0xe2, 0x82, 0xac]), Key::Char('\u{20ac}'));
    assert_eq!(key_from_bytes(&[0xf0, 0x9f, 0x92, 0x96]), Key::Char('\u{1f496}'));
}

#[test]
fn truncated_sequences_are_unknown_never_partial() {
    assert_eq!(key_from_bytes(&[0xc3]), Key::Unknown);
    assert_eq!(key_from_bytes(&[0xe2, 0x82]), Key::Unknown);
    assert_eq!(key_from_bytes(&[0xf0, 0x9f, 0x92]), Key::Unknown);
}

#[test]
fn malformed_sequences_are_unknown() {
    assert_eq!(key_from_bytes(&[]), Key::Unknown);
    assert_eq!(key_from_bytes(&[0xc3, 0x28]), Key::Unknown);
    // Overlong encodings are rejected, not decoded.
    assert_eq!(key_from_bytes(&[0xc0, 0xaf]), Key::Unknown);
    assert_eq!(key_from_bytes(&[0xe0, 0x80, 0x80]), Key::Unknown);
    // Surrogate range values are not characters.
    assert_eq!(key_from_bytes(&[0xed, 0xa0, 0x80]), Key::Unknown);
    // Values beyond the last scalar are rejected.
    assert_eq!(key_from_bytes(&[0xf4, 0x90, 0x80, 0x80]), Key::Unknown);
    // A valid prefix does not rescue an invalid remainder.
    assert_eq!(key_from_bytes(&[b'a', 0xff]), Key::Unknown);
}

#[test]
fn whole_valid_sequences_yield_their_first_char() {
    assert_eq!(key_from_bytes(b"ab"), Key::Char('a'));
    assert_eq!(Key::from(&b"\xc3\xa9x"[..]), Key::Char('\u{e9}'));
}
