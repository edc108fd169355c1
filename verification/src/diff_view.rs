//! The diff view's computing parts: the commit header lines, timestamp
//! rendering with a time of day, and the cursor and scroll bookkeeping of
//! the diff panel. Drawing the widget itself is the program shell's work.

use vstd::prelude::*;

pub use crate::date::is_leap_year;

use crate::blame_view::date_text;
use crate::blame_view::scroll_adjusted;
use crate::commit::CommitInfo;
use crate::date::civil_from_days;
use crate::date::days_from_civil;
use crate::date::valid_date;
use crate::text::dec_digits;
use crate::text::u64_to_string_padded;
use crate::text::zero_padded;

verus! {

/// A time of day as text: hours, minutes and seconds, each zero-padded to
/// two digits, colon-separated.
pub open spec fn time_text(h: int, mn: int, s: int) -> Seq<char> {
    zero_padded(dec_digits(h as nat), 2) + ":"@ + zero_padded(dec_digits(mn as nat), 2) + ":"@
        + zero_padded(dec_digits(s as nat), 2)
}

/// Renders a timestamp (seconds since the epoch, read as unsigned) as
/// `yyyy-mm-dd hh:mm:ss`.
pub fn format_timestamp(timestamp: i64) -> (r: String)
    ensures
        ({
            let secs = timestamp as u64;
            let days = secs / 86400;
            let time = secs % 86400;
            exists|y: int, m: int, d: int|
                {
                    &&& valid_date(y, m, d)
                    &&& days_from_civil(y, m, d) == days
                    &&& r@ == date_text(y, m, d) + " "@ + time_text(
                        (time / 3600) as int,
                        ((time % 3600) / 60) as int,
                        (time % 60) as int,
                    )
                }
        }),
{
    let secs = #[verifier::truncate] (timestamp as u64);
    let days = secs / 86400;
    let time = secs % 86400;
    let (y, m, d) = civil_from_days(days);
    let mut out = u64_to_string_padded(y, 4);
    out.append("-");
    let ms = u64_to_string_padded(m, 2);
    out.append(ms.as_str());
    out.append("-");
    let ds = u64_to_string_padded(d, 2);
    out.append(ds.as_str());
    out.append(" ");
    let hs = u64_to_string_padded(time / 3600, 2);
    out.append(hs.as_str());
    out.append(":");
    let mns = u64_to_string_padded((time % 3600) / 60, 2);
    out.append(mns.as_str());
    out.append(":");
    let ss = u64_to_string_padded(time % 60, 2);
    out.append(ss.as_str());
    proof {
        assert(out@ =~= date_text(y as int, m as int, d as int) + " "@ + time_text(
            (time / 3600) as int,
            ((time % 3600) / 60) as int,
            (time % 60) as int,
        ));
    }
    out
}

/// The diff panel widget: formatted lines and the originating commit's
/// metadata, rendered by the program shell.
pub struct DiffView<'a> {
    pub lines: &'a [String],
    pub commit_info: Option<&'a CommitInfo>,
}

impl<'a> DiffView<'a> {
    pub fn new(lines: &'a [String], commit_info: Option<&'a CommitInfo>) -> (r: Self)
        ensures
            r.lines == lines,
            r.commit_info == commit_info,
    {
        DiffView { lines, commit_info }
    }

    /// The header above the diff: the commit line, author, date, and the
    /// message, separated by blanks; nothing without commit metadata.
    pub fn header_lines(&self) -> (r: Vec<String>)
        ensures
            self.commit_info is None ==> r@.len() == 0,
            self.commit_info matches Some(info) ==> {
                &&& r@.len() == 6
                &&& r@[0]@ == "commit "@ + info.hash@
                &&& r@[1]@ == "Author: "@ + info.author@
                &&& (exists|y: int, m: int, d: int|
                    {
                        let secs = info.timestamp as u64;
                        &&& #[trigger] valid_date(y, m, d)
                        &&& days_from_civil(y, m, d) == secs / 86400
                        &&& r@[2]@ == "Date:   "@ + date_text(y, m, d) + " "@ + time_text(
                            ((secs % 86400) / 3600) as int,
                            (((secs % 86400) % 3600) / 60) as int,
                            ((secs % 86400) % 60) as int,
                        )
                    })
                &&& r@[3]@.len() == 0
                &&& r@[4]@ == "    "@ + info.message@
                &&& r@[5]@.len() == 0
            },
    {
        let info = match self.commit_info {
            Some(i) => i,
            None => {
                return Vec::new();
            },
        };
        let mut r: Vec<String> = Vec::new();
        let mut commit_line = String::from_str("commit ");
        commit_line.append(info.hash.as_str());
        r.push(commit_line);
        let mut author_line = String::from_str("Author: ");
        author_line.append(info.author.as_str());
        r.push(author_line);
        let mut date_line = String::from_str("Date:   ");
        let stamp = format_timestamp(info.timestamp);
        date_line.append(stamp.as_str());
        r.push(date_line);
        r.push(String::new());
        let mut message_line = String::from_str("    ");
        message_line.append(info.message.as_str());
        r.push(message_line);
        r.push(String::new());
        r
    }
}

/// The cursor and scroll position of the diff panel.
pub struct DiffViewState {
    pub scroll_offset: usize,
    pub selected_line: usize,
}

impl DiffViewState {
    /// Clamps the cursor to the selectable diff lines; an empty diff keeps
    /// it at zero.
    pub fn clamp_selection(&mut self, selectable: usize)
        ensures
            final(self).scroll_offset == old(self).scroll_offset,
            final(self).selected_line == (if old(self).selected_line < selectable {
                old(self).selected_line as int
            } else if selectable >= 1 {
                selectable - 1
            } else {
                0
            }),
    {
        if self.selected_line >= selectable {
            self.selected_line = if selectable >= 1 {
                selectable - 1
            } else {
                0
            };
        }
    }

    /// Moves the window so that the given visual line stays visible in a
    /// window of `visible` rows.
    pub fn adjust_scroll(&mut self, selected_visual: usize, visible: usize)
        requires
            visible >= 1 || selected_visual < usize::MAX,
        ensures
            final(self).selected_line == old(self).selected_line,
            final(self).scroll_offset as int == scroll_adjusted(
                old(self).scroll_offset as int,
                selected_visual as int,
                visible as int,
            ),
    {
        if selected_visual < self.scroll_offset {
            self.scroll_offset = selected_visual;
        } else if visible == 0 {
            self.scroll_offset = selected_visual + 1;
        } else if selected_visual >= visible && selected_visual - visible >= self.scroll_offset {
            self.scroll_offset = selected_visual - visible + 1;
        }
    }
}

} // verus!
