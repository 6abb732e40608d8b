//! Wall-clock timestamps. The clock itself is outside the library;
//! one trusted call hands over the local time split into plain fields,
//! and the text renderings are built and verified here.

use vstd::prelude::*;
use vstd::string::StringExecFns;
use chrono::Datelike;
use chrono::Timelike;
use crate::decimal::dec_pad_str;
use crate::decimal::u64_to_dec_pad;

verus! {

/// The local wall-clock time, split into calendar and clock fields.
#[derive(Clone, Copy, Debug)]
pub struct TimeParts {
    pub year: i32,
    pub month: u8,
    pub day: u8,
    pub hour: u8,
    pub minute: u8,
    pub second: u8,
    /// Milliseconds within the second; values above 999 stand for a
    /// leap second.
    pub milli: u16,
}

/// Field ranges the clock guarantees.
pub open spec fn time_parts_wf(t: TimeParts) -> bool {
    1 <= t.month <= 12 && 1 <= t.day <= 31 && t.hour <= 23 && t.minute <= 59 && t.second <= 59
        && t.milli <= 1999
}

/// Relies on chrono: `Local::now` and the `Datelike` / `Timelike`
/// accessors, whose documentation bounds each field as stated, with
/// milliseconds taken from `timestamp_subsec_millis` (up to 1999 on a
/// leap second).
#[verifier::external_body]
pub fn local_time_parts() -> (t: TimeParts)
    ensures
        time_parts_wf(t),
{
    let now = chrono::Local::now();
    TimeParts {
        year: now.year(),
        month: now.month() as u8,
        day: now.day() as u8,
        hour: now.hour() as u8,
        minute: now.minute() as u8,
        second: now.second() as u8,
        milli: now.timestamp_subsec_millis() as u16,
    }
}

/// Year rendering: four digits, zero-padded, minus sign first for
/// years before the common era.
pub open spec fn year_chars(year: i32) -> Seq<char> {
    if year >= 0 {
        dec_pad_str(year as nat, 4)
    } else {
        seq!['-'] + dec_pad_str((-year) as nat, 4)
    }
}

/// "HH:MM:SS.mmm" — the clock-time rendering used for log lines.
pub open spec fn clock_chars(t: TimeParts) -> Seq<char> {
    dec_pad_str(t.hour as nat, 2) + seq![':'] + dec_pad_str(t.minute as nat, 2) + seq![':']
        + dec_pad_str(t.second as nat, 2) + seq!['.'] + dec_pad_str(t.milli as nat, 3)
}

/// "YYYY-MM-DD HH:MM:SS" — the rendering used for discovery times.
pub open spec fn date_time_chars(t: TimeParts) -> Seq<char> {
    year_chars(t.year) + seq!['-'] + dec_pad_str(t.month as nat, 2) + seq!['-'] + dec_pad_str(
        t.day as nat,
        2,
    ) + seq![' '] + dec_pad_str(t.hour as nat, 2) + seq![':'] + dec_pad_str(t.minute as nat, 2)
        + seq![':'] + dec_pad_str(t.second as nat, 2)
}

/// "YYYY-MM-DD_HH-MM-SS" — the rendering used for export file names.
pub open spec fn file_stamp_chars(t: TimeParts) -> Seq<char> {
    year_chars(t.year) + seq!['-'] + dec_pad_str(t.month as nat, 2) + seq!['-'] + dec_pad_str(
        t.day as nat,
        2,
    ) + seq!['_'] + dec_pad_str(t.hour as nat, 2) + seq!['-'] + dec_pad_str(t.minute as nat, 2)
        + seq!['-'] + dec_pad_str(t.second as nat, 2)
}

fn push_year(r: &mut String, year: i32)
    ensures
        final(r)@ == old(r)@ + year_chars(year),
{
    if year >= 0 {
        let d = u64_to_dec_pad(year as u64, 4);
        r.append(d.as_str());
    } else {
        r.append("-");
        proof {
            reveal_strlit("-");
            assert("-"@ =~= seq!['-']);
        }
        let m: u64 = ((-(year + 1)) as u64) + 1;
        proof {
            assert(m == -(year as int));
        }
        let d = u64_to_dec_pad(m, 4);
        r.append(d.as_str());
        proof {
            assert(old(r)@ + (seq!['-'] + dec_pad_str(m as nat, 4)) =~= old(r)@ + seq!['-']
                + dec_pad_str(m as nat, 4));
        }
    }
}

fn push_pad2(r: &mut String, v: u8)
    ensures
        final(r)@ == old(r)@ + dec_pad_str(v as nat, 2),
{
    let d = u64_to_dec_pad(v as u64, 2);
    r.append(d.as_str());
}

/// Renders "HH:MM:SS.mmm".
pub fn clock_text(t: &TimeParts) -> (r: String)
    ensures
        r@ == clock_chars(*t),
{
    let mut r = String::new();
    push_pad2(&mut r, t.hour);
    r.append(":");
    push_pad2(&mut r, t.minute);
    r.append(":");
    push_pad2(&mut r, t.second);
    r.append(".");
    let d = u64_to_dec_pad(t.milli as u64, 3);
    r.append(d.as_str());
    proof {
        reveal_strlit(":");
        reveal_strlit(".");
        assert(":"@ =~= seq![':']);
        assert("."@ =~= seq!['.']);
        assert(r@ =~= clock_chars(*t));
    }
    r
}

/// Renders "YYYY-MM-DD HH:MM:SS".
pub fn date_time_text(t: &TimeParts) -> (r: String)
    ensures
        r@ == date_time_chars(*t),
{
    let mut r = String::new();
    push_year(&mut r, t.year);
    r.append("-");
    push_pad2(&mut r, t.month);
    r.append("-");
    push_pad2(&mut r, t.day);
    r.append(" ");
    push_pad2(&mut r, t.hour);
    r.append(":");
    push_pad2(&mut r, t.minute);
    r.append(":");
    push_pad2(&mut r, t.second);
    proof {
        reveal_strlit("-");
        reveal_strlit(" ");
        reveal_strlit(":");
        assert("-"@ =~= seq!['-']);
        assert(" "@ =~= seq![' ']);
        assert(":"@ =~= seq![':']);
        assert(r@ =~= date_time_chars(*t));
    }
    r
}

/// Renders "YYYY-MM-DD_HH-MM-SS".
pub fn file_stamp_text(t: &TimeParts) -> (r: String)
    ensures
        r@ == file_stamp_chars(*t),
{
    let mut r = String::new();
    push_year(&mut r, t.year);
    r.append("-");
    push_pad2(&mut r, t.month);
    r.append("-");
    push_pad2(&mut r, t.day);
    r.append("_");
    push_pad2(&mut r, t.hour);
    r.append("-");
    push_pad2(&mut r, t.minute);
    r.append("-");
    push_pad2(&mut r, t.second);
    proof {
        reveal_strlit("-");
        reveal_strlit("_");
        assert("-"@ =~= seq!['-']);
        assert("_"@ =~= seq!['_']);
        assert(r@ =~= file_stamp_chars(*t));
    }
    r
}

} // verus!
