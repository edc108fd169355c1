//! The status line's computing parts: the mode tag, the shown file, the
//! cursor position as `line/total`, and the history depth. Drawing is the
//! program shell's work.

use vstd::prelude::*;

use crate::mode::Mode;
use crate::text::dec_digits;
use crate::text::u64_to_string;

verus! {

/// The status line: what is shown, where the cursor is, and how deep the
/// history goes.
pub struct StatusBar {
    pub mode: Mode,
    pub file_path: String,
    pub position: String,
    pub stack_depth: usize,
}

impl StatusBar {
    /// Gathers the status line's fields; the position reads
    /// `line/total` with the cursor shown 1-based.
    pub fn new(
        mode: Mode,
        file_path: &str,
        current_line: usize,
        total_lines: usize,
        stack_depth: usize,
    ) -> (r: StatusBar)
        requires
            current_line < usize::MAX,
        ensures
            r.mode == mode,
            r.file_path@ == file_path@,
            r.position@ == dec_digits((current_line + 1) as nat) + "/"@ + dec_digits(
                total_lines as nat,
            ),
            r.stack_depth == stack_depth,
    {
        let mut position = u64_to_string((current_line + 1) as u64);
        position.append("/");
        let total = u64_to_string(total_lines as u64);
        position.append(total.as_str());
        StatusBar { mode, file_path: String::from_str(file_path), position, stack_depth }
    }
}

} // verus!
