use in_keys::streams::{accept_dims, decimal_string};
use in_keys::Terminal;

#[test]
fn window_size_reports_are_accepted_per_value() {
    assert_eq!(accept_dims(Some((24, 80))), Some((24, 80)));
    assert_eq!(accept_dims(Some((1, 1))), Some((1, 1)));
    assert_eq!(accept_dims(Some((0, 80))), None);
    assert_eq!(accept_dims(Some((24, 0))), None);
    assert_eq!(accept_dims(Some((0, 0))), None);
    assert_eq!(accept_dims(None), None);
}

#[test]
fn decimal_numerals_are_exact() {
    assert_eq!(decimal_string(0), "0");
    assert_eq!(decimal_string(7), "7");
    assert_eq!(decimal_string(10), "10");
    assert_eq!(decimal_string(123), "123");
    assert_eq!(decimal_string(100000), "100000");
    assert_eq!(decimal_string(987654321), "987654321");
    assert_eq!(decimal_string(usize::MAX), usize::MAX.to_string());
}

#[test]
fn output_lock_emits_without_error() {
    let terminal = Terminal::new();
    let mut out = terminal.lock_stdout();
    assert!(out.print("").is_ok());
    assert!(out.println("line").is_ok());
    assert!(out.clear().is_ok());
    assert!(out.clear_to_end().is_ok());
    assert!(out.clear_to_beginning().is_ok());
    assert!(out.clear_line_to_end().is_ok());
    assert!(out.clear_line_to_beginning().is_ok());
    assert!(out.move_cursor(5, 10).is_ok());
    assert!(out.move_cursor_up(1).is_ok());
    assert!(out.move_cursor_down(2).is_ok());
    assert!(out.move_cursor_forward(3).is_ok());
    assert!(out.move_cursor_backward(4).is_ok());
    assert!(out.hide_cursor().is_ok());
    assert!(out.show().is_ok());
}

#[test]
fn reported_terminal_sizes_are_positive() {
    let terminal = Terminal::new();
    let out = terminal.lock_stdout();
    if let Some((rows, cols)) = out.size() {
        assert!(rows > 0);
        assert!(cols > 0);
    }
}

#[test]
fn error_lock_emits_without_error() {
    let terminal = Terminal::new();
    let mut err = terminal.lock_stderr();
    assert!(err.print("to stderr").is_ok());
    assert!(err.println("to stderr, with newline").is_ok());
}
