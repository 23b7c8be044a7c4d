use dj_library_gain_calculator::error::AppError;
use dj_library_gain_calculator::logging::{Level, Logger};
use dj_library_gain_calculator::serialize::kv_to_tuple;

#[test]
fn messages_at_or_above_the_threshold_pass() {
    let l = Logger;
    assert!(l.enabled(Level::Error, Level::Warn));
    assert!(l.enabled(Level::Warn, Level::Warn));
    assert!(!l.enabled(Level::Info, Level::Warn));
    assert!(l.enabled(Level::Trace, Level::Trace));
    assert_eq!(l.get_actual_level(Level::Debug), Level::Debug);
}

#[test]
fn labels_have_five_characters() {
    let l = Logger;
    assert_eq!(l.label(Level::Error), "ERROR");
    assert_eq!(l.label(Level::Warn), "WARN ");
    assert_eq!(l.label(Level::Info), "INFO ");
    assert_eq!(l.label(Level::Debug), "DEBUG");
    assert_eq!(l.label(Level::Trace), "TRACE");
}

#[test]
fn present_values_pair_with_their_name() {
    let v = Some("House".to_string());
    assert_eq!(kv_to_tuple("GENRE", &v), ("GENRE", "House"));
}

#[test]
fn errors_carry_their_message() {
    let e = AppError::GenericError("deserialization error".to_string());
    assert_eq!(e.description(), "deserialization error");
}
