//! The read disciplines driven end to end over a pseudoterminal: the master
//! side plays the user's keyboard, and its slave side becomes standard
//! input. Everything runs in one test, since standard input is process-wide.

use in_keys::keys::Key;
use in_keys::streams::{KeyStep, StreamError, StringStep};
use in_keys::Terminal;

use rustix::pty::OpenptFlags;
use rustix::termios::LocalModes;

#[test]
fn read_disciplines_over_a_pseudoterminal() {
    let flags = OpenptFlags::RDWR | OpenptFlags::NOCTTY;
    let master = rustix::pty::openpt(flags).expect("no pseudoterminal master");
    rustix::pty::grantpt(&master).expect("grantpt failed");
    rustix::pty::unlockpt(&master).expect("unlockpt failed");
    let slave = rustix::pty::ioctl_tiocgptpeer(&master, flags).expect("no pseudoterminal slave");

    // Put the slave in byte-immediate, no-echo mode up front, so bytes
    // written to the master are raw input at once, then make it stdin.
    // Signal generation is off too, so the interrupt byte arrives as data.
    let mut attrs = rustix::termios::tcgetattr(&slave).expect("tcgetattr failed");
    attrs.local_modes.remove(LocalModes::ICANON | LocalModes::ECHO | LocalModes::ISIG);
    rustix::termios::tcsetattr(&slave, rustix::termios::OptionalActions::Now, &attrs)
        .expect("tcsetattr failed");
    rustix::stdio::dup2_stdin(&slave).expect("dup2 failed");
    let resting = rustix::termios::tcgetattr(rustix::stdio::stdin()).unwrap().local_modes;

    let terminal = Terminal::new();
    let mut stdin = terminal.lock_stdin().expect("the pseudoterminal should be attended input");

    // Timeout discipline, zero budget, nothing pending: no result, at once.
    assert_eq!(stdin.read_key_or_timeout(0).unwrap(), None);

    // A plain byte decodes to itself.
    rustix::io::write(&master, b"x").unwrap();
    assert_eq!(stdin.read_key().unwrap(), Key::Char('x'));

    // Escape sequences: arrows and friends finish at once...
    rustix::io::write(&master, b"\x1b[A").unwrap();
    assert_eq!(stdin.read_key().unwrap(), Key::ArrowUp);
    rustix::io::write(&master, b"\x1b[D").unwrap();
    assert_eq!(stdin.read_key().unwrap(), Key::ArrowLeft);
    // ...digit-coded ones take their tilde...
    rustix::io::write(&master, b"\x1b[5~").unwrap();
    assert_eq!(stdin.read_key().unwrap(), Key::PageUp);
    // ...and an unrecognized digit is unknown after exactly three bytes:
    // the tilde is left in the stream and read as the next key.
    rustix::io::write(&master, b"\x1b[9~").unwrap();
    assert_eq!(stdin.read_key().unwrap(), Key::Unknown);
    assert_eq!(stdin.read_key().unwrap(), Key::Char('~'));

    // A lone ESC, with nothing pending behind it, is the Escape key.
    rustix::io::write(&master, b"\x1b").unwrap();
    assert_eq!(stdin.read_key().unwrap(), Key::Escape);

    // Multi-byte characters come back as one scalar; a truncated one is
    // unknown, never partial.
    rustix::io::write(&master, "\u{e9}".as_bytes()).unwrap();
    assert_eq!(stdin.read_key().unwrap(), Key::Char('\u{e9}'));
    rustix::io::write(&master, b"\xe2\x82").unwrap();
    assert_eq!(stdin.read_key().unwrap(), Key::Unknown);

    // The interrupt byte cancels the read: alone, and mid-escape-sequence.
    rustix::io::write(&master, b"\x03").unwrap();
    assert_eq!(stdin.read_key().unwrap_err(), StreamError::Interrupted);
    rustix::io::write(&master, b"\x1b\x03~").unwrap();
    assert_eq!(stdin.read_key().unwrap_err(), StreamError::Interrupted);
    // The read that saw the interrupt consumed the rest of its fetch too.
    assert_eq!(stdin.read_key_or_timeout(0).unwrap(), None);

    // The timeout discipline hands the key over once data is there.
    rustix::io::write(&master, b"y").unwrap();
    assert_eq!(stdin.read_key_or_timeout(5000).unwrap(), Some(Key::Char('y')));

    // The cooperative discipline: steps with nothing pending report not-yet
    // without blocking; the step after a byte arrives has the key.
    let mut op = stdin.begin_read_key().unwrap();
    for _ in 0..3 {
        match op.step(&mut stdin).unwrap() {
            KeyStep::Pending(again) => op = again,
            KeyStep::Ready(k) => panic!("no input was pending, got {:?}", k),
        }
    }
    rustix::io::write(&master, b"z").unwrap();
    match op.step(&mut stdin).unwrap() {
        KeyStep::Ready(k) => assert_eq!(k, Key::Char('z')),
        KeyStep::Pending(op) => {
            op.cancel(&mut stdin).unwrap();
            panic!("a byte was pending, still not ready");
        },
    }

    // While an operation holds the guard, the terminal really is in the
    // requested mode: an echoing line read sets canonical and echo, which
    // the resting mode has cleared. An abandoned operation restores the
    // resting mode through its explicit cancellation path.
    let op = stdin.begin_read_string().unwrap();
    let held = rustix::termios::tcgetattr(rustix::stdio::stdin()).unwrap().local_modes;
    assert!(held.contains(LocalModes::ICANON));
    assert!(held.contains(LocalModes::ECHO));
    op.cancel(&mut stdin).unwrap();
    assert_eq!(rustix::termios::tcgetattr(rustix::stdio::stdin()).unwrap().local_modes, resting);

    let op = stdin.begin_read_key().unwrap();
    op.cancel(&mut stdin).unwrap();
    assert_eq!(rustix::termios::tcgetattr(rustix::stdio::stdin()).unwrap().local_modes, resting);

    // Line reads: a whole line, newline included.
    rustix::io::write(&master, b"hello\n").unwrap();
    assert_eq!(stdin.read_string().unwrap(), "hello\n");
    rustix::io::write(&master, b"more\n").unwrap();
    assert_eq!(stdin.read_string_or_timeout(5000).unwrap(), Some("more\n".to_string()));
    assert_eq!(stdin.read_string_or_timeout(0).unwrap(), None);

    // A line that is not valid UTF-8 fails the read, but the bytes were
    // still consumed from the stream and dropped: nothing is left pending,
    // and the mode is restored as after any other outcome.
    rustix::io::write(&master, b"\xff\xfe\n").unwrap();
    assert!(stdin.read_string().is_err());
    assert_eq!(stdin.read_key_or_timeout(0).unwrap(), None);
    assert_eq!(rustix::termios::tcgetattr(rustix::stdio::stdin()).unwrap().local_modes, resting);

    // The cooperative line read follows the same step protocol.
    let mut sop = stdin.begin_read_string().unwrap();
    match sop.step(&mut stdin).unwrap() {
        StringStep::Pending(again) => sop = again,
        StringStep::Ready(s) => panic!("no line was pending, got {:?}", s),
    }
    rustix::io::write(&master, b"typed\n").unwrap();
    match sop.step(&mut stdin).unwrap() {
        StringStep::Ready(s) => assert_eq!(s, "typed\n"),
        StringStep::Pending(sop) => {
            sop.cancel(&mut stdin).unwrap();
            panic!("a line was pending, still not ready");
        },
    }

    // The hidden variant discards whatever was buffered before the prompt:
    // the stray bytes must not leak into any later read either.
    rustix::io::write(&master, b"stray").unwrap();
    assert_eq!(stdin.read_string_hidden_or_timeout(0).unwrap(), None);
    assert_eq!(stdin.read_key_or_timeout(0).unwrap(), None);

    // Mode guard: after every discipline above, the mode of the terminal is
    // back to what it was before any read.
    assert_eq!(rustix::termios::tcgetattr(rustix::stdio::stdin()).unwrap().local_modes, resting);
}
