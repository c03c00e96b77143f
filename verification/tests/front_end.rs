use powersoftau_core::error::CeremonyError;
use powersoftau_core::config::ConfigError;
use powersoftau_core::curve::DecodeError;
use powersoftau_core::keypair::Exponent;
use powersoftau_core::store::IoError;
use powersoftau_core::tui::{contains, log_level, Action, App, Key, LogLevel};

fn lines() -> Vec<&'static str> {
    vec!["first", "second WARN", "third ERROR", "fourth"]
}

#[test]
fn a_new_view_selects_the_last_line() {
    let app = App::new(lines());
    assert_eq!(app.selected(), Some(3));
    assert_eq!(app.log_entries(), &lines());
    assert_eq!(App::new(vec!["only"]).selected(), Some(0));
}

#[test]
fn selection_wraps_around() {
    let mut app = App::new(lines());
    app.next_log();
    assert_eq!(app.selected(), Some(0));
    app.next_log();
    assert_eq!(app.selected(), Some(1));
    app.previous_log();
    assert_eq!(app.selected(), Some(0));
    app.previous_log();
    assert_eq!(app.selected(), Some(3));
    app.previous_log();
    assert_eq!(app.selected(), Some(2));
    let mut single = App::new(vec!["only"]);
    single.next_log();
    assert_eq!(single.selected(), Some(0));
    single.previous_log();
    assert_eq!(single.selected(), Some(0));
}

#[test]
fn keys_move_the_selection_or_quit() {
    let mut app = App::new(lines());
    assert_eq!(app.handle_key(Key::Up), Action::Continue);
    assert_eq!(app.selected(), Some(2));
    assert_eq!(app.handle_key(Key::Down), Action::Continue);
    assert_eq!(app.handle_key(Key::Down), Action::Continue);
    assert_eq!(app.selected(), Some(0));
    assert_eq!(app.handle_key(Key::Char('x')), Action::Continue);
    assert_eq!(app.handle_key(Key::Other), Action::Continue);
    assert_eq!(app.selected(), Some(0));
    assert_eq!(app.handle_key(Key::Char('q')), Action::Quit);
    assert_eq!(app.selected(), Some(0));
}

#[test]
fn log_lines_are_classified() {
    assert_eq!(log_level("[2024-07-28 17:32:42] WARN: connection unstable"), LogLevel::Warning);
    assert_eq!(log_level("[2024-07-28 17:32:42] ERROR: failed"), LogLevel::Error);
    assert_eq!(log_level("[2024-07-28 17:32:42] INFO: fine"), LogLevel::Info);
    assert_eq!(log_level("ERROR after WARN"), LogLevel::Warning);
    assert_eq!(log_level("warn"), LogLevel::Info);
    assert_eq!(log_level(""), LogLevel::Info);
    assert_eq!(log_level("WAR"), LogLevel::Info);
    assert_eq!(log_level("xERRORx"), LogLevel::Error);
    assert!(contains(b"abc", b""));
    assert!(contains(b"", b""));
    assert!(!contains(b"", b"a"));
    assert!(contains(b"abc", b"bc"));
    assert!(!contains(b"abc", b"cb"));
}

#[test]
fn failures_are_described_and_classified() {
    let fatal = [
        CeremonyError::Config(ConfigError::InvalidPower),
        CeremonyError::Io(IoError::SizeMismatch),
    ];
    for e in fatal.iter() {
        assert!(!e.is_recoverable());
    }
    let recoverable = [
        CeremonyError::Decode(DecodeError::NotInSubgroup),
        CeremonyError::ProofOfKnowledge(Exponent::Alpha),
        CeremonyError::Consistency,
        CeremonyError::HashMismatch,
    ];
    for e in recoverable.iter() {
        assert!(e.is_recoverable());
    }
    assert_eq!(CeremonyError::HashMismatch.message(), "response derived from another challenge");
    assert_eq!(
        CeremonyError::Decode(DecodeError::NotInSubgroup).message(),
        "point outside its subgroup"
    );
    assert_eq!(CeremonyError::Decode(DecodeError::NotOnCurve).message(), "malformed point");
    assert_eq!(
        CeremonyError::ProofOfKnowledge(Exponent::Tau).message(),
        "proof of knowledge failed"
    );
    assert_eq!(CeremonyError::Consistency.message(), "response inconsistent with challenge");
    assert_eq!(CeremonyError::Config(ConfigError::InvalidPower).message(), "invalid configuration");
    assert_eq!(CeremonyError::Io(IoError::ReadOnly).message(), "file does not fit the layout");
}
