use omni_terminal::assistant::Assistant;
use omni_terminal::backoff::{next_backoff, reset_backoff};
use omni_terminal::error::{TerminalError, TerminalErrorLevel, TerminalErrorType};
use omni_terminal::input::{default_port, key_to_bytes, mouse_modifiers, x11_button};
use omni_terminal::search::{Direction, SearchState};
use omni_terminal::text::wrap_text;

#[test]
fn backoff_doubles_to_cap_and_resets() {
    let mut delays = Vec::new();
    let mut ms = reset_backoff();
    for _ in 0..8 {
        ms = next_backoff(ms);
        delays.push(ms);
    }
    assert_eq!(delays, vec![1000, 2000, 4000, 8000, 16000, 30000, 30000, 30000]);
    for pair in delays.windows(2) {
        assert!(pair[0] <= pair[1]);
    }
    assert_eq!(next_backoff(reset_backoff()), 1000);
}

#[test]
fn key_mapping() {
    assert_eq!(key_to_bytes("Enter", false, false), b"\r");
    assert_eq!(key_to_bytes("Backspace", false, false), vec![0x7f]);
    assert_eq!(key_to_bytes("ArrowUp", false, false), b"\x1b[A");
    assert_eq!(key_to_bytes("F1", false, false), b"\x1bOP");
    assert_eq!(key_to_bytes("F4", false, false), b"\x1bOS");
    assert_eq!(key_to_bytes("F5", false, false), b"\x1b[15~");
    assert_eq!(key_to_bytes("F10", false, false), b"\x1b[21~");
    assert_eq!(key_to_bytes("F12", false, false), b"\x1b[24~");
    assert_eq!(key_to_bytes("a", false, false), b"a");
    assert_eq!(key_to_bytes("c", true, false), vec![3]);
    assert_eq!(key_to_bytes("C", true, false), vec![3]);
    // Ctrl+V stays with the host's paste path.
    assert_eq!(key_to_bytes("v", true, false), Vec::<u8>::new());
    assert_eq!(key_to_bytes("x", false, true), b"\x1bx");
    assert_eq!(key_to_bytes("é", false, false), "é".as_bytes());
    assert_eq!(key_to_bytes("Shift", false, false), Vec::<u8>::new());
}

#[test]
fn mouse_input_helpers() {
    assert_eq!(mouse_modifiers(true, false, false), 4);
    assert_eq!(mouse_modifiers(false, true, true), 24);
    assert_eq!(x11_button(0), 0);
    assert_eq!(x11_button(1), 1);
    assert_eq!(x11_button(2), 2);
    assert_eq!(x11_button(9), 0);
    assert_eq!(default_port("wss"), 443);
    assert_eq!(default_port("ws"), 80);
}

#[test]
fn wrap_text_packs_words() {
    assert_eq!(wrap_text("a bb ccc", 5), vec!["a bb", "ccc"]);
    assert_eq!(wrap_text("hello", 0), vec!["hello"]);
    let lines = wrap_text("overlongword tiny", 4);
    assert_eq!(lines, vec!["overlongword", "tiny"]);
    for line in &lines {
        assert!(!line.is_empty());
        assert!(line.len() <= 4 || !line.contains(' '));
    }
}

#[test]
fn assistant_reports() {
    let mut a = Assistant::new();
    assert!(a.is_warning());
    a.set(TerminalError::configuration_not_found());
    assert!(a.is_warning());
    a.set(TerminalError {
        report: TerminalErrorType::InitializationError("boom".to_string()),
        level: TerminalErrorLevel::Error,
    });
    assert!(!a.is_warning());
    a.clear();
    assert!(a.is_warning());
}

#[test]
fn error_messages() {
    assert_eq!(
        TerminalErrorType::ConfigurationNotFound.message(),
        "Configuration file was not found"
    );
    assert_eq!(
        TerminalErrorType::InvalidConfigurationTheme("bad".to_string()).message(),
        "Found an issue in the configured theme:\nbad"
    );
}

#[test]
fn search_state_defaults() {
    let mut s = SearchState::default();
    assert_eq!(s.direction(), Direction::Right);
    assert!(s.regex().is_none());
    assert!(s.focused_match().is_none());
    assert!(s.dfas().is_none());
    s.history.push("query".to_string());
    s.history_index = Some(0);
    assert_eq!(s.regex(), Some(&"query".to_string()));
    s.set_regex("other".to_string());
    assert_eq!(s.regex(), Some(&"other".to_string()));
    s.clear_focused_match();
    assert!(s.focused_match().is_none());
}
