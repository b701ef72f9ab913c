//! The input mode of a Windows console.
use aishell::windows_console::{
    line_input_mode, restored_mode, ENABLE_ECHO_INPUT, ENABLE_LINE_INPUT, ENABLE_PROCESSED_INPUT,
};

#[test]
fn restoring_line_input_preserves_unrelated_console_flags() {
    let terminal_flags: u32 = 0x0010 | 0x0080 | 0x0200;
    let restored = line_input_mode(terminal_flags);

    assert_eq!(restored & terminal_flags, terminal_flags);
    assert_ne!(restored & ENABLE_PROCESSED_INPUT, 0);
    assert_ne!(restored & ENABLE_LINE_INPUT, 0);
    assert_ne!(restored & ENABLE_ECHO_INPUT, 0);
}

#[test]
fn a_restored_mode_is_not_set_again() {
    assert_eq!(restored_mode(0x0290), Some(0x0297));
    assert_eq!(restored_mode(0x0297), None);
}
