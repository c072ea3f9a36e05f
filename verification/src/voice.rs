//! Spoken-text rendering: decimal numbers, clock readings, durations,
//! and the fixed-voice Say builder.

use vstd::prelude::*;
use vstd::string::*;

use crate::event::{Timestamp, Weekday};
use crate::jambonz::{Say, SaySynthesizer, Verb};

verus! {

/// The character of a single decimal digit.
pub open spec fn digit_char(d: int) -> char {
    if d == 0 {
        '0'
    } else if d == 1 {
        '1'
    } else if d == 2 {
        '2'
    } else if d == 3 {
        '3'
    } else if d == 4 {
        '4'
    } else if d == 5 {
        '5'
    } else if d == 6 {
        '6'
    } else if d == 7 {
        '7'
    } else if d == 8 {
        '8'
    } else {
        '9'
    }
}

/// The usual decimal rendering of a number, without leading zeroes
/// (a single zero for zero itself).
pub open spec fn decimal_digits(n: nat) -> Seq<char>
    decreases n,
{
    if n < 10 {
        seq![digit_char(n as int)]
    } else {
        decimal_digits(n / 10).push(digit_char((n % 10) as int))
    }
}

/// A number under one hundred rendered as exactly two digits.
pub open spec fn two_digits(n: int) -> Seq<char> {
    seq![digit_char(n / 10), digit_char(n % 10)]
}

/// A wall-clock reading in `HH:MM` form.
pub open spec fn clock_digits(t: Timestamp) -> Seq<char> {
    two_digits(t.hour as int) + seq![':'] + two_digits(t.minute as int)
}

/// The English name of a weekday.
pub open spec fn weekday_name(w: Weekday) -> Seq<char> {
    match w {
        Weekday::Monday => "Monday"@,
        Weekday::Tuesday => "Tuesday"@,
        Weekday::Wednesday => "Wednesday"@,
        Weekday::Thursday => "Thursday"@,
        Weekday::Friday => "Friday"@,
        Weekday::Saturday => "Saturday"@,
        Weekday::Sunday => "Sunday"@,
    }
}

/// A timestamp read out relative to `now`: `HH:MM` on the same calendar
/// day, `<weekday> HH:MM` on any other day.
pub open spec fn clock_text(t: Timestamp, now: Timestamp) -> Seq<char> {
    if t.day == now.day {
        clock_digits(t)
    } else {
        weekday_name(t.weekday) + " "@ + clock_digits(t)
    }
}

/// A duration of `secs` seconds read out as `<H> hours<M> minutes`,
/// where the hours segment is omitted for durations under one hour and
/// the minutes figure is the minute-of-hour remainder.
pub open spec fn duration_text(secs: int) -> Seq<char> {
    let hours_part = if secs / 3600 > 0 {
        decimal_digits((secs / 3600) as nat) + " hours"@
    } else {
        Seq::<char>::empty()
    };
    hours_part + decimal_digits(((secs / 60) % 60) as nat) + " minutes"@
}

/// The literal for one decimal digit.
fn digit_str(d: u64) -> (s: &'static str)
    requires
        d < 10,
    ensures
        s@ == seq![digit_char(d as int)],
{
    proof {
        reveal_strlit("0");
        reveal_strlit("1");
        reveal_strlit("2");
        reveal_strlit("3");
        reveal_strlit("4");
        reveal_strlit("5");
        reveal_strlit("6");
        reveal_strlit("7");
        reveal_strlit("8");
        reveal_strlit("9");
    }
    if d == 0 {
        "0"
    } else if d == 1 {
        "1"
    } else if d == 2 {
        "2"
    } else if d == 3 {
        "3"
    } else if d == 4 {
        "4"
    } else if d == 5 {
        "5"
    } else if d == 6 {
        "6"
    } else if d == 7 {
        "7"
    } else if d == 8 {
        "8"
    } else {
        "9"
    }
}

/// Render a number in decimal.
pub fn u64_to_string(n: u64) -> (s: String)
    ensures
        s@ == decimal_digits(n as nat),
    decreases n,
{
    if n < 10 {
        String::from_str(digit_str(n))
    } else {
        let prefix = u64_to_string(n / 10);
        let s = prefix.concat(digit_str(n % 10));
        proof {
            assert(s@ =~= decimal_digits(n as nat));
        }
        s
    }
}

/// Render a number under one hundred as exactly two digits.
pub fn two_digit_string(n: u8) -> (s: String)
    requires
        n < 100,
    ensures
        s@ == two_digits(n as int),
{
    let tens = String::from_str(digit_str((n / 10) as u64));
    let s = tens.concat(digit_str((n % 10) as u64));
    proof {
        assert(s@ =~= two_digits(n as int));
    }
    s
}

/// Render a timestamp for reading out relative to `now`.
pub fn format_timestamp_relative_to(timestamp: Timestamp, now: Timestamp) -> (s: String)
    requires
        timestamp.wf(),
    ensures
        s@ == clock_text(timestamp, now),
{
    proof {
        reveal_strlit(":");
    }
    let hh = two_digit_string(timestamp.hour);
    let hhc = hh.concat(":");
    let mm = two_digit_string(timestamp.minute);
    let hhmm = hhc.concat(mm.as_str());
    proof {
        assert(hhmm@ =~= clock_digits(timestamp));
    }
    if timestamp.day == now.day {
        hhmm
    } else {
        let day = weekday_name_text(timestamp.weekday);
        let with_space = day.concat(" ");
        let s = with_space.concat(hhmm.as_str());
        proof {
            assert(s@ =~= clock_text(timestamp, now));
        }
        s
    }
}

/// The English name of a weekday.
pub fn weekday_name_text(w: Weekday) -> (s: String)
    ensures
        s@ == weekday_name(w),
{
    match w {
        Weekday::Monday => String::from_str("Monday"),
        Weekday::Tuesday => String::from_str("Tuesday"),
        Weekday::Wednesday => String::from_str("Wednesday"),
        Weekday::Thursday => String::from_str("Thursday"),
        Weekday::Friday => String::from_str("Friday"),
        Weekday::Saturday => String::from_str("Saturday"),
        Weekday::Sunday => String::from_str("Sunday"),
    }
}

/// Render a non-negative duration, given in seconds, for reading out.
pub fn format_duration(duration_secs: u64) -> (s: String)
    ensures
        s@ == duration_text(duration_secs as int),
{
    let hours: u64 = duration_secs / 3600;
    let minutes: u64 = (duration_secs / 60) % 60;
    let hours_part = if hours > 0 {
        u64_to_string(hours).concat(" hours")
    } else {
        String::new()
    };
    let minutes_str = u64_to_string(minutes);
    let with_minutes = hours_part.concat(minutes_str.as_str());
    let s = with_minutes.concat(" minutes");
    proof {
        assert(s@ =~= duration_text(duration_secs as int));
    }
    s
}

/// Wrap text as a Say instruction with the fixed voice configuration.
pub fn speak(text: &str) -> (s: Say)
    ensures
        s.text@ == text@,
        s.synthesizer matches Some(c) && crate::jambonz::is_default_synth(c),
{
    Say {
        text: String::from_str(text),
        synthesizer: Some(
            SaySynthesizer {
                vendor: String::from_str("aws"),
                language: String::from_str("en-GB"),
                gender: None,
                voice: String::from_str("Amy"),
            },
        ),
    }
}

/// Wrap text as a spoken verb with the fixed voice configuration.
pub fn speak_verb(text: &str) -> (v: Verb)
    ensures
        crate::jambonz::is_default_say(v, text@),
{
    Verb::Say(speak(text))
}

} // verus!
