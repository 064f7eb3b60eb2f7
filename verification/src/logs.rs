//! Where a day's gateway log lives, and what a reader is shown of it.

use vstd::prelude::*;
use vstd::string::*;
use crate::date::{date_text, lemma_date_text_injective, CalendarDate};
use crate::lines::{split_lines, text_lines};
use crate::tail::{line_views, tail_lines, tail_text};

verus! {

/// Name of the directory, below the gateway's base directory, that holds the
/// daily log files.
pub open spec fn log_dir_name() -> Seq<char> {
    "logs"@
}

/// What every daily log file's name starts with.
pub open spec fn log_file_prefix() -> Seq<char> {
    "logs_gateway_app.log."@
}

/// Name of the log file of the day `date`.
pub open spec fn log_file_name(date: CalendarDate) -> Seq<char> {
    log_file_prefix() + date_text(date)
}

/// What a reader is shown when the day's log file does not exist.
pub open spec fn no_logs_text() -> Seq<char> {
    "No logs found for today."@
}

/// What a reader is shown: the notice when the file is absent, else the tail
/// of its lines.
pub open spec fn log_tail_text(found: Option<Seq<Seq<char>>>, max_lines: nat) -> Seq<char> {
    match found {
        None => no_logs_text(),
        Some(lines) => tail_text(lines, max_lines),
    }
}

/// The place of one day's log file, as the parts of its path from the
/// outermost directory inwards.
#[derive(Debug)]
pub struct LogSelector {
    pub base_dir: String,
    pub dir_name: String,
    pub file_name: String,
    pub date: CalendarDate,
}

impl LogSelector {
    /// This selector names the log of `date` below `base_dir`.
    pub open spec fn selects(&self, base_dir: Seq<char>, date: CalendarDate) -> bool {
        &&& self.base_dir@ == base_dir
        &&& self.dir_name@ == log_dir_name()
        &&& self.file_name@ == log_file_name(date)
        &&& self.date == date
    }
}

/// The selector of the log that the gateway under `base_dir` wrote on `date`.
pub fn log_selector(base_dir: String, date: CalendarDate) -> (selector: LogSelector)
    requires
        date.wf(),
    ensures
        selector.selects(base_dir@, date),
{
    let mut file_name = String::from_str("logs_gateway_app.log.");
    let day = date.to_text();
    file_name.append(day.as_str());
    LogSelector { base_dir, dir_name: String::from_str("logs"), file_name, date }
}

/// The notice shown when the day's log file does not exist.
pub fn no_logs_message() -> (message: String)
    ensures
        message@ == no_logs_text(),
{
    String::from_str("No logs found for today.")
}

/// What to show of a day's log: `found` is `None` where the file does not
/// exist, else its lines in file order.
pub fn render_log_tail(found: Option<&Vec<String>>, max_lines: usize) -> (shown: String)
    ensures
        shown@ == log_tail_text(
            match found {
                None => None,
                Some(lines) => Some(line_views(lines@)),
            },
            max_lines as nat,
        ),
{
    match found {
        None => no_logs_message(),
        Some(lines) => tail_lines(lines, max_lines),
    }
}

/// What to show of a day's log, from the file itself: `contents` is `None`
/// where the file does not exist, else its bytes. Lines that are not UTF-8
/// are left out before the tail is taken.
pub fn show_log(contents: Option<&[u8]>, max_lines: usize) -> (shown: String)
    ensures
        shown@ == log_tail_text(
            match contents {
                None => None,
                Some(bytes) => Some(text_lines(bytes@)),
            },
            max_lines as nat,
        ),
{
    match contents {
        None => no_logs_message(),
        Some(bytes) => {
            let found = split_lines(bytes);
            tail_lines(&found.lines, max_lines)
        },
    }
}

/// The logs of two different days have different names: a file left from
/// another day is never taken for today's.
pub proof fn lemma_log_file_name_injective(a: CalendarDate, b: CalendarDate)
    requires
        a.wf(),
        b.wf(),
        log_file_name(a) == log_file_name(b),
    ensures
        a == b,
{
    let p = log_file_prefix().len() as int;
    let na = log_file_name(a);
    let nb = log_file_name(b);
    assert(date_text(a) =~= na.subrange(p, na.len() as int));
    assert(date_text(b) =~= nb.subrange(p, nb.len() as int));
    lemma_date_text_injective(a, b);
}

} // verus!
