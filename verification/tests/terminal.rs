use in_keys::streams::StreamError;
use in_keys::{Target, Terminal};

#[test]
fn printing_through_the_terminal_succeeds() {
    let terminal = Terminal::new();
    assert!(terminal.print(Target::Stdout, "out").is_ok());
    assert!(terminal.println(Target::Stdout, "out line").is_ok());
    assert!(terminal.print(Target::Stderr, "err").is_ok());
    assert!(terminal.println(Target::Stderr, "err line").is_ok());
    assert!(terminal.clear().is_ok());
    assert!(terminal.hide_cursor().is_ok());
    assert!(terminal.show().is_ok());
}

#[test]
fn default_terminal_behaves_like_a_new_one() {
    let terminal = Terminal::default();
    assert!(terminal.print(Target::Stdout, "").is_ok());
}

#[test]
fn unattended_input_is_its_own_condition() {
    let terminal = Terminal::new();
    // Under a test harness standard input is a pipe, not a terminal; every
    // read surface must then report the unattended condition, not an I/O
    // error. (On an interactive terminal the lock is handed out instead.)
    match terminal.lock_stdin() {
        None => {
            assert_eq!(terminal.read_key().unwrap_err(), StreamError::Unattended);
            assert_eq!(terminal.read_string().unwrap_err(), StreamError::Unattended);
        },
        Some(_) => {},
    }
}
