//! The input mode of a Windows console.
use vstd::prelude::*;

verus! {

/// Control characters are handled by the system.
pub const ENABLE_PROCESSED_INPUT: u32 = 0x0001;

/// Input is handed out line by line.
pub const ENABLE_LINE_INPUT: u32 = 0x0002;

/// Input is echoed.
pub const ENABLE_ECHO_INPUT: u32 = 0x0004;

/// The mode in which lines are entered, with every other flag as it was.
pub open spec fn with_line_input(mode: u32) -> u32 {
    mode | ENABLE_PROCESSED_INPUT | ENABLE_LINE_INPUT | ENABLE_ECHO_INPUT
}

/// The mode in which lines are entered, with every other flag as it was.
pub fn line_input_mode(mode: u32) -> (r: u32)
    ensures
        r == with_line_input(mode),
{
    mode | ENABLE_PROCESSED_INPUT | ENABLE_LINE_INPUT | ENABLE_ECHO_INPUT
}

/// What is to be set so that lines can be entered, if the mode is another.
pub open spec fn mode_to_set(mode: u32) -> Option<u32> {
    if with_line_input(mode) == mode {
        None
    } else {
        Some(with_line_input(mode))
    }
}

/// What is to be set so that lines can be entered, if the mode is another.
pub fn restored_mode(mode: u32) -> (r: Option<u32>)
    ensures
        r == mode_to_set(mode),
        r == (if with_line_input(mode) == mode {
            None
        } else {
            Some(with_line_input(mode))
        }),
{
    let restored: u32 = line_input_mode(mode);
    if restored != mode {
        Some(restored)
    } else {
        None
    }
}

/// Restoring the input mode sets three flags and keeps every other as it was; a
/// mode that was restored is not changed again.
pub proof fn unrelated_flags_are_kept(mode: u32, flag: u32)
    requires
        flag & 0x0007 == 0,
    ensures
        with_line_input(mode) & flag == mode & flag,
        with_line_input(mode) & 0x0007 == 0x0007,
        with_line_input(with_line_input(mode)) == with_line_input(mode),
{
    assert(flag & 0x0007 == 0 ==> (mode | 0x0001u32 | 0x0002u32 | 0x0004u32) & flag == mode & flag)
        by (bit_vector);
    assert((mode | 0x0001u32 | 0x0002u32 | 0x0004u32) & 0x0007 == 0x0007) by (bit_vector);
    let restored = mode | 0x0001u32 | 0x0002u32 | 0x0004u32;
    assert(restored | 0x0001u32 | 0x0002u32 | 0x0004u32 == restored) by (bit_vector)
        requires
            restored == mode | 0x0001u32 | 0x0002u32 | 0x0004u32,
    ;
}

/// The mode is left alone exactly where lines can be entered already: processed,
/// line by line and with an echo.
pub proof fn usable_modes_are_left_alone(mode: u32)
    ensures
        mode_to_set(mode) is None <==> mode & 0x0007 == 0x0007,
        mode_to_set(mode) matches Some(restored) ==> restored & 0x0007 == 0x0007 && restored
            & !0x0007u32 == mode & !0x0007u32,
{
    assert((mode | 0x0001u32 | 0x0002u32 | 0x0004u32) == mode <==> mode & 0x0007 == 0x0007)
        by (bit_vector);
    assert((mode | 0x0001u32 | 0x0002u32 | 0x0004u32) & 0x0007 == 0x0007) by (bit_vector);
    assert((mode | 0x0001u32 | 0x0002u32 | 0x0004u32) & !0x0007u32 == mode & !0x0007u32)
        by (bit_vector);
}

} // verus!
