//! Texts for spans of time, given in whole seconds.

use crate::text::{decimal, decimal_text, two_digit_text, two_digits};
use vstd::prelude::*;
use vstd::string::StringExecFns;

verus! {

/// The whole units in a span, rounded towards zero.
pub open spec fn whole(span: int, unit: int) -> int
    recommends
        unit > 0,
{
    if span >= 0 {
        span / unit
    } else {
        -((-span) / unit)
    }
}

pub const MINUTE: i64 = 60;

pub const HOUR: i64 = 3600;

pub const DAY: i64 = 86400;

pub const WEEK: i64 = 604800;

/// The text of a running timer: hours and minutes once an hour is full,
/// hours, minutes and seconds once a minute is full, and seconds before.
pub open spec fn timer(num_seconds: int) -> Seq<char> {
    let hours = whole(num_seconds, HOUR as int);
    let minutes = whole(num_seconds, MINUTE as int);
    if hours > 0 {
        two_digit_text(hours) + ":"@ + two_digit_text(minutes - hours * 60)
    } else if minutes > 0 {
        two_digit_text(hours) + ":"@ + two_digit_text(minutes) + ":"@ + two_digit_text(
            num_seconds - minutes * 60,
        )
    } else {
        decimal_text(num_seconds) + "s"@
    }
}

/// The text of a running timer.
pub fn timer_text(num_seconds: i64) -> (r: String)
    ensures
        r@ == timer(num_seconds as int),
{
    let hours: i64 = num_seconds / HOUR;
    let minutes: i64 = num_seconds / MINUTE;
    if hours > 0 {
        let mut s = two_digits(hours);
        s.append(":");
        s.append(two_digits(minutes - hours * 60).as_str());
        s
    } else if minutes > 0 {
        let mut s = two_digits(hours);
        s.append(":");
        s.append(two_digits(minutes).as_str());
        s.append(":");
        s.append(two_digits(num_seconds % MINUTE).as_str());
        s
    } else {
        let mut s = decimal(num_seconds);
        s.append("s");
        s
    }
}

/// The text of the age of a moment: in weeks, days or hours, whichever is
/// the largest unit that is full, and else in minutes. A moment that is
/// asked for as one to come has its sign turned.
pub open spec fn age(num_seconds: int, in_future: bool) -> Seq<char> {
    let sign: int = if in_future {
        -1
    } else {
        1
    };
    let weeks = whole(whole(num_seconds, DAY as int), 7);
    let days = whole(num_seconds, DAY as int);
    let hours = whole(num_seconds, HOUR as int);
    let minutes = whole(num_seconds, MINUTE as int);
    if weeks != 0 {
        decimal_text(sign * weeks) + "w"@
    } else if days != 0 {
        decimal_text(sign * days) + "d"@
    } else if hours != 0 {
        decimal_text(sign * hours) + "h"@
    } else {
        decimal_text(sign * minutes) + "m"@
    }
}

/// The text of the age of a moment.
pub fn age_text(num_seconds: i64, in_future: bool) -> (r: String)
    ensures
        r@ == age(num_seconds as int, in_future),
{
    let sign: i64 = if in_future {
        -1
    } else {
        1
    };
    let days: i64 = num_seconds / DAY;
    let weeks: i64 = days / 7;
    let hours: i64 = num_seconds / HOUR;
    let minutes: i64 = num_seconds / MINUTE;
    if weeks != 0 {
        let mut s = decimal(sign * weeks);
        s.append("w");
        s
    } else if days != 0 {
        let mut s = decimal(sign * days);
        s.append("d");
        s
    } else if hours != 0 {
        let mut s = decimal(sign * hours);
        s.append("h");
        s
    } else {
        let mut s = decimal(sign * minutes);
        s.append("m");
        s
    }
}

} // verus!
