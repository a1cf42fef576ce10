//! When a label was set, as the session tree shows it.

use crate::text::{decimal, decimal_str, push_char};
use vstd::prelude::*;
use vstd::string::*;

verus! {

/// A time of day in the user's time zone.
#[derive(Debug, Clone, Copy, PartialEq, Eq, Structural)]
pub struct CivilTime {
    pub year: i32,
    pub month: u32,
    pub day: u32,
    pub hour: u32,
    pub minute: u32,
}

/// A number in at least two digits.
pub open spec fn two_digits(n: nat) -> Seq<char> {
    if n < 10 {
        seq!['0'] + decimal(n)
    } else {
        decimal(n)
    }
}

fn two_digit_str(n: u32) -> (r: String)
    ensures
        r@ == two_digits(n as nat),
{
    let mut r = String::new();
    if n < 10 {
        push_char(&mut r, '0');
    }
    r.append(decimal_str(n as u128).as_str());
    assert(r@ =~= two_digits(n as nat));
    r
}

/// When a label was set: the time alone for today, with month and day for this year, and with the
/// year's last two digits otherwise.
pub open spec fn label_time(date: CivilTime, now: CivilTime) -> Seq<char> {
    let time = two_digits(date.hour as nat) + ":"@ + two_digits(date.minute as nat);
    let day = decimal(date.month as nat) + "/"@ + decimal(date.day as nat) + " "@ + time;
    if date.year == now.year && date.month == now.month && date.day == now.day {
        time
    } else if date.year == now.year {
        day
    } else {
        two_digits((date.year as int % 100) as nat) + "/"@ + day
    }
}

/// When a label was set, as it is shown at the time `now`.
pub fn format_label_time(date: CivilTime, now: CivilTime) -> (r: String)
    ensures
        r@ == label_time(date, now),
{
    let time = two_digit_str(date.hour).concat(":").concat(two_digit_str(date.minute).as_str());
    if date.year == now.year && date.month == now.month && date.day == now.day {
        return time;
    }
    let day = decimal_str(date.month as u128).concat("/").concat(
        decimal_str(date.day as u128).as_str(),
    ).concat(" ").concat(time.as_str());
    if date.year == now.year {
        return day;
    }
    let year: i64 = date.year as i64;
    let short: u32 = if year >= 0 {
        (year % 100) as u32
    } else {
        let up: i64 = (-year) % 100;
        if up == 0 {
            0
        } else {
            (100 - up) as u32
        }
    };
    proof {
        assert(short == date.year as int % 100) by (nonlinear_arith)
            requires
                year == date.year,
                year >= 0 ==> short == year as int % 100,
                year < 0 ==> ({
                    let up = (-year) as int % 100;
                    short == if up == 0 {
                        0
                    } else {
                        100 - up
                    }
                }),
        ;
    }
    two_digit_str(short).concat("/").concat(day.as_str())
}

/// The largest number of seconds by which a time zone is ahead of UTC or behind it.
pub const MAX_OFFSET: i32 = 93_599;

/// Whether a time zone can be ahead of UTC by this many seconds.
pub open spec fn is_offset(seconds: i32) -> bool {
    -MAX_OFFSET <= seconds <= MAX_OFFSET
}

/// The year, month, day, hour and minute that `jiff` reads in the text of a timestamp, in a time zone
/// that is this many seconds ahead of UTC; none when the text is no timestamp.
pub uninterp spec fn timestamp_parts(text: Seq<char>, offset_seconds: i32) -> Option<
    (i32, u32, u32, u32, u32),
>;

/// Reads a timestamp with `jiff::Timestamp::from_str`, and its date and time of day with
/// `jiff::tz::Offset::to_datetime`. The offset is one that `jiff::tz::Offset::from_seconds` takes.
#[verifier::external_body]
fn read_timestamp(text: &str, offset_seconds: i32) -> (r: Option<(i32, u32, u32, u32, u32)>)
    requires
        is_offset(offset_seconds),
    ensures
        r == timestamp_parts(text@, offset_seconds),
{
    let instant: jiff::Timestamp = text.parse().ok()?;
    let date = jiff::tz::Offset::from_seconds(offset_seconds).ok()?.to_datetime(instant);
    Some((
        i32::from(date.year()),
        u32::from(date.month().unsigned_abs()),
        u32::from(date.day().unsigned_abs()),
        u32::from(date.hour().unsigned_abs()),
        u32::from(date.minute().unsigned_abs()),
    ))
}

/// How a label's timestamp is shown at the time `now`, given what was read in it: a text that is no
/// timestamp as it is.
pub open spec fn shown_timestamp(
    timestamp: Seq<char>,
    parts: Option<(i32, u32, u32, u32, u32)>,
    now: CivilTime,
) -> Seq<char> {
    match parts {
        Some((year, month, day, hour, minute)) => label_time(
            CivilTime { year, month, day, hour, minute },
            now,
        ),
        None => timestamp,
    }
}

/// How a label's timestamp is shown at the time `now`, given what was read in it.
pub fn show_timestamp(
    timestamp: &str,
    parts: Option<(i32, u32, u32, u32, u32)>,
    now: CivilTime,
) -> (r: String)
    ensures
        r@ == shown_timestamp(timestamp@, parts, now),
{
    match parts {
        Some((year, month, day, hour, minute)) => format_label_time(
            CivilTime { year, month, day, hour, minute },
            now,
        ),
        None => timestamp.to_owned(),
    }
}

/// A label's timestamp in the local time, which is `offset_seconds` ahead of UTC, as it is shown at
/// the local time `now`; a text that is no timestamp as it is.
pub fn format_label_timestamp(timestamp: &str, offset_seconds: i32, now: CivilTime) -> (r: String)
    requires
        is_offset(offset_seconds),
    ensures
        r@ == shown_timestamp(timestamp@, timestamp_parts(timestamp@, offset_seconds), now),
{
    show_timestamp(timestamp, read_timestamp(timestamp, offset_seconds), now)
}

} // verus!
