//! The lines of the program's log and the daily file they go to.
//!
//! Writing the file is the caller's work; this module says what a line
//! holds for a given clock reading (seconds since 1970-01-01 UTC), which
//! file it belongs to, and where the log folder is.

use vstd::prelude::*;
use crate::text::{chars_of, concat, string_from};
use crate::usbipd::{decimal, joined_path, join_path, u64_digits};

verus! {

/// The civil date (year, month, day) of a day counted from 1970-01-01, by
/// the proleptic Gregorian calendar (Howard Hinnant's `civil_from_days`).
pub open spec fn civil(days: int) -> (int, int, int) {
    let z = days + 719_468;
    let era = z / 146_097;
    let doe = z - era * 146_097;
    let yoe = (doe - doe / 1460 + doe / 36_524 - doe / 146_096) / 365;
    let y = yoe + era * 400;
    let doy = doe - (365 * yoe + yoe / 4 - yoe / 100);
    let mp = (5 * doy + 2) / 153;
    let d = doy - (153 * mp + 2) / 5 + 1;
    let m = if mp < 10 {
        mp + 3
    } else {
        mp - 9
    };
    (if m <= 2 {
        y + 1
    } else {
        y
    }, m, d)
}

/// Within an era the day of the year and the month index stay in range.
proof fn lemma_day_of_era(doe: int)
    requires
        0 <= doe < 146_097,
    ensures
        ({
            let yoe = (doe - doe / 1460 + doe / 36_524 - doe / 146_096) / 365;
            let doy = doe - (365 * yoe + yoe / 4 - yoe / 100);
            let mp = (5 * doy + 2) / 153;
            &&& 0 <= yoe <= 399
            &&& 0 <= doy <= 365
            &&& 0 <= mp <= 11
            &&& 1 <= doy - (153 * mp + 2) / 5 + 1 <= 31
        }),
{
}

/// A clock reading's date has a month from 1 to 12 and a day from 1 to 31.
pub proof fn law_civil_in_range(days: int)
    requires
        0 <= days,
    ensures
        1 <= civil(days).1 <= 12,
        1 <= civil(days).2 <= 31,
        civil(days).0 >= 1970,
{
    let z = days + 719_468;
    let era = z / 146_097;
    let doe = z - era * 146_097;
    lemma_day_of_era(doe);
}

/// The date of a clock reading in seconds.
pub open spec fn date_of(secs: u64) -> (int, int, int) {
    civil((secs / 86_400) as int)
}

/// `n` in decimal, left-padded with zeros to `width` digits.
pub open spec fn padded(n: nat, width: nat) -> Seq<char> {
    let d = decimal(n);
    if d.len() >= width {
        d
    } else {
        Seq::new((width - d.len()) as nat, |i: int| '0') + d
    }
}

fn padded_digits(n: u64, width: usize) -> (r: Vec<char>)
    ensures
        r@ == padded(n as nat, width as nat),
{
    let d = u64_digits(n);
    if d.len() >= width {
        return d;
    }
    let mut z: Vec<char> = Vec::new();
    let fill = width - d.len();
    let mut i: usize = 0;
    while i < fill
        invariant
            i <= fill,
            z@ == Seq::new(i as nat, |k: int| '0'),
        decreases fill - i,
    {
        z.push('0');
        assert(z@ =~= Seq::new((i + 1) as nat, |k: int| '0'));
        i += 1;
    }
    concat(&z, &d)
}

/// The year, month and day of a clock reading, each a number.
pub fn civil_from_secs(secs: u64) -> (r: (u64, u64, u64))
    ensures
        (r.0 as int, r.1 as int, r.2 as int) == date_of(secs),
{
    let days: u64 = secs / 86_400;
    let z: u64 = days + 719_468;
    let era: u64 = z / 146_097;
    let doe: u64 = z - era * 146_097;
    proof {
        lemma_day_of_era(doe as int);
    }
    let yoe: u64 = (doe - doe / 1460 + doe / 36_524 - doe / 146_096) / 365;
    let y: u64 = yoe + era * 400;
    let doy: u64 = doe - (365 * yoe + yoe / 4 - yoe / 100);
    let mp: u64 = (5 * doy + 2) / 153;
    let d: u64 = doy - (153 * mp + 2) / 5 + 1;
    let m: u64 = if mp < 10 {
        mp + 3
    } else {
        mp - 9
    };
    let y: u64 = if m <= 2 {
        y + 1
    } else {
        y
    };
    (y, m, d)
}

/// `YYYY-MM-DD HH:MM:SS` of a clock reading (UTC), as the log writes it.
pub open spec fn time_text(secs: u64) -> Seq<char> {
    let (y, m, d) = date_of(secs);
    let rem = secs % 86_400;
    let h = rem / 3600;
    let mi = (rem % 3600) / 60;
    let s = rem % 60;
    padded(y as nat, 4) + seq!['-'] + padded(m as nat, 2) + seq!['-'] + padded(d as nat, 2) + seq![
        ' ',
    ] + padded(h as nat, 2) + seq![':'] + padded(mi as nat, 2) + seq![':'] + padded(s as nat, 2)
}

pub fn now_text(secs: u64) -> (r: String)
    ensures
        r@ == time_text(secs),
{
    let (y, m, d) = civil_from_secs(secs);
    let rem = secs % 86_400;
    let h = rem / 3600;
    let mi = (rem % 3600) / 60;
    let s = rem % 60;
    let mut v = padded_digits(y, 4);
    v.push('-');
    let v = concat(&v, &padded_digits(m, 2));
    let mut v = v;
    v.push('-');
    let v = concat(&v, &padded_digits(d, 2));
    let mut v = v;
    v.push(' ');
    let v = concat(&v, &padded_digits(h, 2));
    let mut v = v;
    v.push(':');
    let v = concat(&v, &padded_digits(mi, 2));
    let mut v = v;
    v.push(':');
    let v = concat(&v, &padded_digits(s, 2));
    assert(v@ =~= time_text(secs));
    string_from(&v)
}

/// `YYYYMMDD.log`: the file of the day of a clock reading.
pub open spec fn day_file(secs: u64) -> Seq<char> {
    let (y, m, d) = date_of(secs);
    padded(y as nat, 4) + padded(m as nat, 2) + padded(d as nat, 2) + ".log"@
}

pub fn today_file(secs: u64) -> (r: String)
    ensures
        r@ == day_file(secs),
{
    let (y, m, d) = civil_from_secs(secs);
    let v = padded_digits(y, 4);
    let v = concat(&v, &padded_digits(m, 2));
    let v = concat(&v, &padded_digits(d, 2));
    let ext = chars_of(".log");
    let v = concat(&v, &ext);
    assert(v@ =~= day_file(secs));
    string_from(&v)
}

/// `s` left-aligned in a field of `width` characters.
pub open spec fn left_aligned(s: Seq<char>, width: nat) -> Seq<char> {
    if s.len() >= width {
        s
    } else {
        s + Seq::new((width - s.len()) as nat, |i: int| ' ')
    }
}

/// One log line: time, thread name in brackets, the level left-aligned in
/// five columns, the message, and a Windows line end.
pub open spec fn line_text(secs: u64, thread: Seq<char>, level: Seq<char>, msg: Seq<char>) -> Seq<char> {
    time_text(secs) + seq![' ', '['] + thread + seq![']', ' '] + left_aligned(level, 5) + seq![' ']
        + msg + seq!['\r', '\n']
}

pub fn log_line(secs: u64, thread: &str, level: &str, msg: &str) -> (r: String)
    ensures
        r@ == line_text(secs, thread@, level@, msg@),
{
    let t = now_text(secs);
    let mut v = chars_of(t.as_str());
    v.push(' ');
    v.push('[');
    let v = concat(&v, &chars_of(thread));
    let mut v = v;
    v.push(']');
    v.push(' ');
    let lv = chars_of(level);
    let mut v = concat(&v, &lv);
    let mut k: usize = lv.len();
    let ghost base = v@;
    while k < 5
        invariant
            lv.len() <= k <= 5 || (lv.len() > 5 && k == lv.len()),
            v@ == base + Seq::new((k - lv.len()) as nat, |i: int| ' '),
        decreases 5 - k,
    {
        v.push(' ');
        assert(v@ =~= base + Seq::new((k + 1 - lv.len()) as nat, |i: int| ' '));
        k += 1;
    }
    assert(v@ =~= time_text(secs) + seq![' ', '['] + thread@ + seq![']', ' '] + left_aligned(
        level@,
        5,
    ));
    v.push(' ');
    let v = concat(&v, &chars_of(msg));
    let mut v = v;
    v.push('\r');
    v.push('\n');
    assert(v@ =~= line_text(secs, thread@, level@, msg@));
    string_from(&v)
}

/// The line for a debug message.
pub fn debug(msg: &str, secs: u64, thread: &str) -> (r: String)
    ensures
        r@ == line_text(secs, thread@, "DEBUG"@, msg@),
{
    log_line(secs, thread, "DEBUG", msg)
}

/// The line for an informational message.
pub fn info(msg: &str, secs: u64, thread: &str) -> (r: String)
    ensures
        r@ == line_text(secs, thread@, "INFO"@, msg@),
{
    log_line(secs, thread, "INFO", msg)
}

/// The line for a warning.
pub fn warn(msg: &str, secs: u64, thread: &str) -> (r: String)
    ensures
        r@ == line_text(secs, thread@, "WARN"@, msg@),
{
    log_line(secs, thread, "WARN", msg)
}

/// The line for an error.
pub fn error(msg: &str, secs: u64, thread: &str) -> (r: String)
    ensures
        r@ == line_text(secs, thread@, "ERROR"@, msg@),
{
    log_line(secs, thread, "ERROR", msg)
}

/// The log folder inside the program's data folder.
pub fn logs_dir(app_data: &str) -> (r: String)
    ensures
        r@ == joined_path(app_data@, "Logs"@),
{
    join_path(app_data, "Logs")
}

/// Where the line of a clock reading goes: the day's file in the log folder.
pub fn log_file_path(app_data: &str, secs: u64) -> (r: String)
    ensures
        r@ == joined_path(joined_path(app_data@, "Logs"@), day_file(secs)),
{
    let dir = logs_dir(app_data);
    let name = today_file(secs);
    join_path(dir.as_str(), name.as_str())
}

} // verus!
