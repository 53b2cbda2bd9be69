//! Pattern validation, translation and compilation.

use quer::matcher::Pattern;
use quer::pattern::{hex_to_regex, ContentMode, PatternError};

#[test]
fn translates_adjacent_pairs() {
    let r = hex_to_regex("DEAD").unwrap();
    assert_eq!(r, "\\xDE\\xAD");
}

#[test]
fn translates_separated_pairs() {
    let r = hex_to_regex("DE AD BE EF").unwrap();
    assert_eq!(r, "\\xDE\\xAD\\xBE\\xEF");
}

#[test]
fn translates_tab_and_newline_separators() {
    let r = hex_to_regex("de\tad\nbe ef").unwrap();
    assert_eq!(r, "\\xde\\xad\\xbe\\xef");
}

#[test]
fn keeps_metacharacters() {
    let r = hex_to_regex("DE(AD|BE)").unwrap();
    assert_eq!(r, "\\xDE(\\xAD|\\xBE)");
}

#[test]
fn wildcard_passes_through() {
    let r = hex_to_regex("DE . AD").unwrap();
    assert_eq!(r, "\\xDE.\\xAD");
}

#[test]
fn lone_digit_passes_through() {
    let r = hex_to_regex("DEA").unwrap();
    assert_eq!(r, "\\xDEA");
}

#[test]
fn rejects_invalid_character() {
    assert!(matches!(hex_to_regex("DG"), Err(PatternError::InvalidCharacter)));
    assert!(matches!(hex_to_regex("zz"), Err(PatternError::InvalidCharacter)));
    assert!(matches!(hex_to_regex("DE AD!"), Err(PatternError::InvalidCharacter)));
}

#[test]
fn invalid_character_beats_grouping_errors() {
    // A malformed group with an invalid character is InvalidCharacter,
    // never CompileError.
    assert!(matches!(hex_to_regex("((g"), Err(PatternError::InvalidCharacter)));
}

#[test]
fn rejects_empty_hex_pattern() {
    assert!(matches!(hex_to_regex(""), Err(PatternError::EmptyPattern)));
}

#[test]
fn compile_rejects_empty_in_both_modes() {
    assert!(matches!(Pattern::compile("", ContentMode::Hex), Err(PatternError::EmptyPattern)));
    assert!(matches!(Pattern::compile("", ContentMode::Text), Err(PatternError::EmptyPattern)));
}

#[test]
fn compile_rejects_invalid_character_in_hex_mode() {
    assert!(matches!(
        Pattern::compile("no hex", ContentMode::Hex),
        Err(PatternError::InvalidCharacter)
    ));
}

#[test]
fn compile_reports_malformed_grouping() {
    match Pattern::compile("((", ContentMode::Hex) {
        Err(PatternError::CompileError(diag)) => assert!(!diag.is_empty()),
        _ => panic!("expected a compile diagnostic"),
    }
    assert!(matches!(
        Pattern::compile("(", ContentMode::Text),
        Err(PatternError::CompileError(_))
    ));
}

#[test]
fn compile_keeps_mode_and_source() {
    let p = Pattern::compile("DEAD", ContentMode::Hex).unwrap();
    assert!(matches!(p.mode(), ContentMode::Hex));
    assert_eq!(p.source(), "(?-u)\\xDE\\xAD");
    let q = Pattern::compile("ab+", ContentMode::Text).unwrap();
    assert!(matches!(q.mode(), ContentMode::Text));
    assert_eq!(q.source(), "ab+");
}

#[test]
fn whitespace_only_hex_text_compiles_to_match_everything() {
    // Whitespace-only text is not empty, strips to nothing, and so
    // compiles to an expression that matches everywhere.
    let p = Pattern::compile(" ", ContentMode::Hex).unwrap();
    assert_eq!(p.source(), "(?-u)");
}
