//! The attribution view's computing parts: author truncation, timestamp
//! rendering, and the scroll bookkeeping that keeps the selected line
//! visible. Drawing the widget itself is the program shell's work.

use vstd::prelude::*;

pub use crate::date::is_leap_year;

use crate::blame::BlameFrame;
use crate::date::civil_from_days;
use crate::date::days_from_civil;
use crate::date::valid_date;
use crate::text::dec_digits;
use crate::text::u64_to_string_padded;
use crate::text::zero_padded;

verus! {

/// A calendar date as text: the year zero-padded to four digits, month and
/// day to two, dash-separated.
pub open spec fn date_text(y: int, m: int, d: int) -> Seq<char> {
    zero_padded(dec_digits(y as nat), 4) + "-"@ + zero_padded(dec_digits(m as nat), 2) + "-"@
        + zero_padded(dec_digits(d as nat), 2)
}

/// Renders a timestamp (seconds since the epoch, read as unsigned) as
/// `yyyy-mm-dd`: the one date whose day count matches the timestamp's.
pub fn format_timestamp(timestamp: i64) -> (r: String)
    ensures
        ({
            let days = (timestamp as u64) / 86400;
            exists|y: int, m: int, d: int|
                {
                    &&& valid_date(y, m, d)
                    &&& days_from_civil(y, m, d) == days
                    &&& r@ == date_text(y, m, d)
                }
        }),
{
    let secs = #[verifier::truncate] (timestamp as u64);
    let days = secs / 86400;
    let (y, m, d) = civil_from_days(days);
    let mut out = u64_to_string_padded(y, 4);
    out.append("-");
    let ms = u64_to_string_padded(m, 2);
    out.append(ms.as_str());
    out.append("-");
    let ds = u64_to_string_padded(d, 2);
    out.append(ds.as_str());
    proof {
        assert(out@ =~= date_text(y as int, m as int, d as int));
    }
    out
}

/// `s` unchanged when it fits in `max_len` characters, else its first
/// `max_len - 2` characters with a dotted marker appended.
pub fn truncate(s: &str, max_len: usize) -> (r: String)
    requires
        max_len >= 2,
    ensures
        s@.len() <= max_len ==> r@ == s@,
        s@.len() > max_len ==> r@ == s@.subrange(0, max_len - 2) + ".. "@,
{
    let n = s.unicode_len();
    if n <= max_len {
        String::from_str(s)
    } else {
        let head = s.substring_char(0, max_len - 2);
        let mut out = String::from_str(head);
        out.append(".. ");
        out
    }
}

/// The attribution list widget: one frame, rendered by the program shell.
pub struct BlameView<'a> {
    pub frame: &'a BlameFrame,
}

impl<'a> BlameView<'a> {
    pub fn new(frame: &'a BlameFrame) -> (r: Self)
        ensures
            r.frame == frame,
    {
        BlameView { frame }
    }
}

/// Where a scrolled window starts after keeping the selected line visible:
/// it scrolls up to the selection, down just far enough, or stays.
pub open spec fn scroll_adjusted(offset: int, selected: int, visible: int) -> int {
    if selected < offset {
        selected
    } else if selected >= offset + visible {
        selected - visible + 1
    } else {
        offset
    }
}

/// The scroll position of the attribution list.
pub struct BlameViewState {
    pub scroll_offset: usize,
}

impl BlameViewState {
    /// Moves the window so that the selected line stays visible in a
    /// window of `visible` rows.
    pub fn adjust_scroll(&mut self, selected: usize, visible: usize)
        requires
            visible >= 1 || selected < usize::MAX,
        ensures
            final(self).scroll_offset as int == scroll_adjusted(
                old(self).scroll_offset as int,
                selected as int,
                visible as int,
            ),
    {
        if selected < self.scroll_offset {
            self.scroll_offset = selected;
        } else if visible == 0 {
            self.scroll_offset = selected + 1;
        } else if selected >= visible && selected - visible >= self.scroll_offset {
            self.scroll_offset = selected - visible + 1;
        }
    }
}

} // verus!
