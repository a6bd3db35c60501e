//! The panel clock: formatting of the displayed time and date, and the
//! timing of the next refresh.
//!
//! Reading the wall clock is the time crate's work, behind a trusted
//! wrapper; everything computed from the reading — the twelve-hour time
//! string, the date string, and how long to sleep until the next minute
//! boundary — is verified here.

use vstd::prelude::*;

use chrono::{Datelike, Timelike};
use vstd::string::StringExecFns;

verus! {

/// A clock refresh: the newly formatted time and date strings.
pub enum ClockMessage {
    UpdateClock(String, String),
}

/// The displayed clock: its current time and date strings.
pub struct Clock {
    pub time: String,
    pub date: String,
}

impl Clock {
    /// A clock showing nothing yet.
    pub fn new() -> (r: Clock)
        ensures
            r.time@ == Seq::<char>::empty(),
            r.date@ == Seq::<char>::empty(),
    {
        Clock { time: String::new(), date: String::new() }
    }

    /// Take a refresh over: the clock then shows exactly the received
    /// strings.
    pub fn handle_message(&mut self, clock_message: ClockMessage)
        ensures
            match clock_message {
                ClockMessage::UpdateClock(t, d) => final(self).time == t && final(self).date == d,
            },
    {
        match clock_message {
            ClockMessage::UpdateClock(new_time, new_date) => {
                self.time = new_time;
                self.date = new_date;
            },
        }
    }
}

/// The decimal digit character for one digit value.
pub open spec fn spec_digit_char(d: int) -> char {
    if d == 0 {
        '0'
    } else if d == 1 {
        '1'
    } else if d == 2 {
        '2'
    } else if d == 3 {
        '3'
    } else if d == 4 {
        '4'
    } else if d == 5 {
        '5'
    } else if d == 6 {
        '6'
    } else if d == 7 {
        '7'
    } else if d == 8 {
        '8'
    } else {
        '9'
    }
}

/// A number below one hundred, zero-padded to two digits.
pub open spec fn spec_two_digits(n: int) -> Seq<char> {
    seq![spec_digit_char(n / 10), spec_digit_char(n % 10)]
}

/// The displayed time: a zero-padded twelve-hour clock with an AM/PM
/// marker, as in `09:05 PM`.
pub open spec fn spec_format_time(hour: int, minute: int) -> Seq<char> {
    let h12 = if hour % 12 == 0 {
        12
    } else {
        hour % 12
    };
    spec_two_digits(h12) + seq![':'] + spec_two_digits(minute) + seq![' '] + (if hour < 12 {
        seq!['A']
    } else {
        seq!['P']
    }) + seq!['M']
}

/// The displayed date: year, month and day, zero-padded, as in
/// `2024-07-09`.
pub open spec fn spec_format_date(year: int, month: int, day: int) -> Seq<char> {
    spec_two_digits(year / 100) + spec_two_digits(year % 100) + seq!['-'] + spec_two_digits(month)
        + seq!['-'] + spec_two_digits(day)
}

/// Append one decimal digit character.
fn append_digit(s: &mut String, d: u32)
    requires
        d < 10,
    ensures
        final(s)@ == old(s)@ + seq![spec_digit_char(d as int)],
{
    proof {
        reveal_strlit("0");
        reveal_strlit("1");
        reveal_strlit("2");
        reveal_strlit("3");
        reveal_strlit("4");
        reveal_strlit("5");
        reveal_strlit("6");
        reveal_strlit("7");
        reveal_strlit("8");
        reveal_strlit("9");
    }
    if d == 0 {
        s.append("0");
    } else if d == 1 {
        s.append("1");
    } else if d == 2 {
        s.append("2");
    } else if d == 3 {
        s.append("3");
    } else if d == 4 {
        s.append("4");
    } else if d == 5 {
        s.append("5");
    } else if d == 6 {
        s.append("6");
    } else if d == 7 {
        s.append("7");
    } else if d == 8 {
        s.append("8");
    } else {
        s.append("9");
    }
    proof {
        assert(final(s)@ =~= old(s)@ + seq![spec_digit_char(d as int)]);
    }
}

/// Append a number below one hundred, zero-padded to two digits.
fn append_two_digits(s: &mut String, n: u32)
    requires
        n < 100,
    ensures
        final(s)@ == old(s)@ + spec_two_digits(n as int),
{
    append_digit(s, n / 10);
    append_digit(s, n % 10);
    proof {
        assert(final(s)@ =~= old(s)@ + spec_two_digits(n as int));
    }
}

/// Format an hour and minute for display, per [`spec_format_time`].
pub fn format_time(hour: u32, minute: u32) -> (r: String)
    requires
        hour < 24,
        minute < 60,
    ensures
        r@ == spec_format_time(hour as int, minute as int),
{
    proof {
        reveal_strlit(":");
        reveal_strlit(" AM");
        reveal_strlit(" PM");
    }
    let mut r = String::new();
    let h12 = if hour % 12 == 0 {
        12
    } else {
        hour % 12
    };
    append_two_digits(&mut r, h12);
    r.append(":");
    append_two_digits(&mut r, minute);
    if hour < 12 {
        r.append(" AM");
    } else {
        r.append(" PM");
    }
    proof {
        assert(r@ =~= spec_format_time(hour as int, minute as int));
    }
    r
}

/// Format a date for display, per [`spec_format_date`]. The year must have
/// at most four digits.
pub fn format_date(year: u32, month: u32, day: u32) -> (r: String)
    requires
        year <= 9999,
        1 <= month <= 12,
        1 <= day <= 31,
    ensures
        r@ == spec_format_date(year as int, month as int, day as int),
{
    proof {
        reveal_strlit("-");
    }
    let mut r = String::new();
    append_two_digits(&mut r, year / 100);
    append_two_digits(&mut r, year % 100);
    r.append("-");
    append_two_digits(&mut r, month);
    r.append("-");
    append_two_digits(&mut r, day);
    proof {
        assert(r@ =~= spec_format_date(year as int, month as int, day as int));
    }
    r
}

/// The refresh message for one wall-clock reading: the formatted time and
/// date strings.
pub fn clock_update(year: u32, month: u32, day: u32, hour: u32, minute: u32) -> (r: ClockMessage)
    requires
        year <= 9999,
        1 <= month <= 12,
        1 <= day <= 31,
        hour < 24,
        minute < 60,
    ensures
        match r {
            ClockMessage::UpdateClock(t, d) => t@ == spec_format_time(hour as int, minute as int)
                && d@ == spec_format_date(year as int, month as int, day as int),
        },
{
    ClockMessage::UpdateClock(format_time(hour, minute), format_date(year, month, day))
}

/// How many milliseconds to sleep from the given Unix-millisecond instant
/// until the next minute boundary: always positive, at most one minute, and
/// landing exactly on a boundary.
pub fn millis_until_next_minute(now_ms: i64) -> (r: i64)
    requires
        now_ms > i64::MIN,
    ensures
        0 < r <= 60000,
        (now_ms + r) % 60000 == 0,
{
    let r: i64 = if now_ms >= 0 {
        let rem = now_ms % 60000;
        60000 - rem
    } else {
        let rem = (-now_ms) % 60000;
        if rem == 0 {
            60000
        } else {
            rem
        }
    };
    proof {
        assert((now_ms + r) % 60000 == 0) by (nonlinear_arith)
            requires
                0 < r <= 60000,
                (now_ms >= 0 ==> r == 60000 - now_ms % 60000) && (now_ms < 0 ==> (((-now_ms) % 60000
                    == 0 && r == 60000) || r == (-now_ms) % 60000)),
        ;
    }
    r
}

/// Relies on `chrono::Local::now` and its `Datelike` / `Timelike`
/// accessors: the wall-clock instant in the machine's local time zone, as
/// Unix milliseconds together with its local year, month, day, hour and
/// minute. Chrono documents month in 1..=12, day in 1..=31, hour below 24
/// and minute below 60; the instant itself depends on when the call runs,
/// so nothing more is promised.
#[verifier::external_body]
pub fn local_now_parts() -> (r: (i64, i32, u32, u32, u32, u32))
    ensures
        1 <= r.2 <= 12,
        1 <= r.3 <= 31,
        r.4 < 24,
        r.5 < 60,
{
    let now = chrono::Local::now();
    (now.timestamp_millis(), now.year(), now.month(), now.day(), now.hour(), now.minute())
}

/// One turn of the clock's refresh loop: read the wall clock and build the
/// refresh message, together with how long to sleep until the next minute
/// boundary. A local year outside four digits (never the case between the
/// years 1000 and 9999) yields no message, only the sleep time.
pub fn clock_tick() -> (r: (Option<ClockMessage>, i64))
    ensures
        0 < r.1 <= 60000,
        match r.0 {
            Some(m) => match m {
                ClockMessage::UpdateClock(t, d) => exists|y: int, mo: int, dy: int, h: int, mi: int|
                    0 <= y <= 9999 && 1 <= mo <= 12 && 1 <= dy <= 31 && 0 <= h < 24 && 0 <= mi < 60
                        && t@ == #[trigger] spec_format_time(h, mi) && d@
                        == #[trigger] spec_format_date(y, mo, dy),
            },
            None => true,
        },
{
    let (now_ms, year, month, day, hour, minute) = local_now_parts();
    let sleep = if now_ms > i64::MIN {
        millis_until_next_minute(now_ms)
    } else {
        60000
    };
    if 0 <= year && year <= 9999 {
        let message = clock_update(year as u32, month, day, hour, minute);
        proof {
            let m = message;
            match m {
                ClockMessage::UpdateClock(t, d) => {
                    assert(t@ == spec_format_time(hour as int, minute as int) && d@
                        == spec_format_date(year as int, month as int, day as int));
                },
            }
        }
        (Some(message), sleep)
    } else {
        (None, sleep)
    }
}

} // verus!
