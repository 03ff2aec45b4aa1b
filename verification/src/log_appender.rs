//! How the daily log files are named and when a new one is opened: one file
//! per local calendar day, `<prefix>.<yyyy-mm-dd>.<suffix>`.

use vstd::prelude::*;
use crate::text::{chars_eq, chars_of, push_str};

verus! {

/// The name of the log file of day `date`.
pub open spec fn log_file_name(prefix: Seq<char>, date: Seq<char>, suffix: Seq<char>) -> Seq<char> {
    prefix + seq!['.'] + date + seq!['.'] + suffix
}

/// The name of the log file of day `date` (`yyyy-mm-dd`, local time).
pub fn dated_file_name(prefix: &str, date: &str, suffix: &str) -> (s: String)
    ensures
        s@ == log_file_name(prefix@, date@, suffix@),
{
    let mut s = String::new();
    push_str(&mut s, prefix);
    crate::text::push_char(&mut s, '.');
    push_str(&mut s, date);
    crate::text::push_char(&mut s, '.');
    push_str(&mut s, suffix);
    s
}

/// Whether a write on day `today` needs a new file: none is open, or the
/// open one is of another day.
pub fn needs_new_file(open_day: Option<&str>, today: &str) -> (b: bool)
    ensures
        b == match open_day {
            Some(d) => d@ != today@,
            None => true,
        },
{
    match open_day {
        Some(d) => {
            let dc = chars_of(d);
            let tc = chars_of(today);
            !chars_eq(dc.as_slice(), tc.as_slice())
        },
        None => true,
    }
}

} // verus!
