use vstd::prelude::*;
use crate::status::{decimal_chars_u64, decimal_of};
use crate::text::{append_chars, append_str, chars_of, string_of};

verus! {

/// A date of the proleptic Gregorian calendar.
#[derive(PartialEq, Eq, Structural, Clone, Copy, Debug)]
pub struct CivilDate {
    pub year: u64,
    pub month: u64,
    pub day: u64,
}

/// The civil date of a day counted from 1970-01-01, by the days-to-civil
/// algorithm over 400-year eras starting in March. Every intermediate
/// quantity is asked to stay non-negative; the result is absent otherwise.
pub open spec fn civil_from_days_spec(days: int) -> Option<CivilDate> {
    let z = days + 719468;
    let era = z / 146097;
    let doe = z - era * 146097;
    let yoe = (doe - doe / 1460 + doe / 36524 - doe / 146096) / 365;
    let y = yoe + era * 400;
    let before = 365 * yoe + yoe / 4 - yoe / 100;
    if before > doe {
        None
    } else {
        let doy = doe - before;
        let mp = (5 * doy + 2) / 153;
        if (153 * mp + 2) / 5 > doy {
            None
        } else {
            let d = doy - (153 * mp + 2) / 5 + 1;
            let m = if mp < 10 {
                mp + 3
            } else {
                mp - 9
            };
            Some(
                CivilDate {
                    year: (if m <= 2 {
                        y + 1
                    } else {
                        y
                    }) as u64,
                    month: m as u64,
                    day: d as u64,
                },
            )
        }
    }
}

/// The civil date of day `days` after 1970-01-01.
pub fn civil_from_days(days: u64) -> (r: Option<CivilDate>)
    requires
        days < 0x1_0000_0000_0000,
    ensures
        r == civil_from_days_spec(days as int),
{
    let z: u64 = days + 719468;
    let era: u64 = z / 146097;
    let doe: u64 = z % 146097;
    proof {
        assert(doe == z - era * 146097) by (nonlinear_arith)
            requires
                era == z / 146097,
                doe == z % 146097,
        ;
        assert(era * 400 <= z) by (nonlinear_arith)
            requires
                era == z / 146097,
        ;
    }
    let yoe: u64 = (doe - doe / 1460 + doe / 36524 - doe / 146096) / 365;
    proof {
        assert(yoe <= doe);
    }
    let y: u64 = yoe + era * 400;
    let before: u64 = 365 * yoe + yoe / 4 - yoe / 100;
    if before > doe {
        return None;
    }
    let doy: u64 = doe - before;
    let mp: u64 = (5 * doy + 2) / 153;
    if (153 * mp + 2) / 5 > doy {
        return None;
    }
    let d: u64 = doy - (153 * mp + 2) / 5 + 1;
    let m: u64 = if mp < 10 {
        mp + 3
    } else {
        mp - 9
    };
    let year: u64 = if m <= 2 {
        y + 1
    } else {
        y
    };
    Some(CivilDate { year, month: m, day: d })
}

/// The English name of a month, 1 to 12.
pub open spec fn month_name(m: u64) -> Seq<char> {
    if m == 1 {
        "January"@
    } else if m == 2 {
        "February"@
    } else if m == 3 {
        "March"@
    } else if m == 4 {
        "April"@
    } else if m == 5 {
        "May"@
    } else if m == 6 {
        "June"@
    } else if m == 7 {
        "July"@
    } else if m == 8 {
        "August"@
    } else if m == 9 {
        "September"@
    } else if m == 10 {
        "October"@
    } else if m == 11 {
        "November"@
    } else {
        "December"@
    }
}

fn month_name_exec(m: u64) -> (r: &'static str)
    ensures
        r@ == month_name(m),
{
    if m == 1 {
        "January"
    } else if m == 2 {
        "February"
    } else if m == 3 {
        "March"
    } else if m == 4 {
        "April"
    } else if m == 5 {
        "May"
    } else if m == 6 {
        "June"
    } else if m == 7 {
        "July"
    } else if m == 8 {
        "August"
    } else if m == 9 {
        "September"
    } else if m == 10 {
        "October"
    } else if m == 11 {
        "November"
    } else {
        "December"
    }
}

/// The weekday of day `days` after 1970-01-01 (a Thursday), Monday first.
pub open spec fn weekday_name(days: int) -> Seq<char> {
    let w = (days + 3) % 7;
    if w == 0 {
        "Monday"@
    } else if w == 1 {
        "Tuesday"@
    } else if w == 2 {
        "Wednesday"@
    } else if w == 3 {
        "Thursday"@
    } else if w == 4 {
        "Friday"@
    } else if w == 5 {
        "Saturday"@
    } else {
        "Sunday"@
    }
}

fn weekday_name_exec(days: u64) -> (r: &'static str)
    requires
        days < 0x1_0000_0000_0000,
    ensures
        r@ == weekday_name(days as int),
{
    let w = (days + 3) % 7;
    if w == 0 {
        "Monday"
    } else if w == 1 {
        "Tuesday"
    } else if w == 2 {
        "Wednesday"
    } else if w == 3 {
        "Thursday"
    } else if w == 4 {
        "Friday"
    } else if w == 5 {
        "Saturday"
    } else {
        "Sunday"
    }
}

/// `n` in decimal, with leading zeros up to `width` digits.
pub open spec fn padded(n: nat, width: nat) -> Seq<char> {
    let d = decimal_of(n);
    if d.len() >= width {
        d
    } else {
        Seq::new((width - d.len()) as nat, |i: int| '0') + d
    }
}

fn padded_exec(n: u64, width: usize) -> (r: Vec<char>)
    ensures
        r@ == padded(n as nat, width as nat),
{
    let d = decimal_chars_u64(n);
    if d.len() >= width {
        return d;
    }
    proof {
        assert(d@.len() < width);
    }
    let mut out: Vec<char> = Vec::new();
    let k = width - d.len();
    let mut i: usize = 0;
    while i < k
        invariant
            i <= k,
            out@ == Seq::new(i as nat, |j: int| '0'),
        decreases k - i,
    {
        out.push('0');
        i = i + 1;
        proof {
            assert(out@ =~= Seq::new(i as nat, |j: int| '0'));
        }
    }
    append_chars(&mut out, &d);
    proof {
        assert(out@ =~= padded(n as nat, width as nat));
    }
    out
}

/// The date line of a worker's global context, with the system it runs on.
pub open spec fn global_context_spec(date: CivilDate, days: int, os: Seq<char>, arch: Seq<char>) -> Seq<
    char,
> {
    "=== Context ===\nCurrent date: "@ + friendly_spec(date) + " ("@ + weekday_name(days)
        + ")\nSystem: "@ + os + " ("@ + arch + ")\n==============="@
}

/// The global context block: today's date (UTC) and the system.
pub fn global_context(timestamp_secs: u64, os: &str, arch: &str) -> (r: Option<String>)
    ensures
        match civil_from_days_spec((timestamp_secs / 86400) as int) {
            Some(date) => r matches Some(s) && s@ == global_context_spec(
                date,
                (timestamp_secs / 86400) as int,
                os@,
                arch@,
            ),
            None => r is None,
        },
{
    let days = timestamp_secs / 86400;
    let date = match civil_from_days(days) {
        Some(d) => d,
        None => {
            return None;
        },
    };
    let mut out: Vec<char> = chars_of("=== Context ===\nCurrent date: ");
    let fd = friendly_date(date);
    append_chars(&mut out, &fd);
    append_str(&mut out, " (");
    append_str(&mut out, weekday_name_exec(days));
    append_str(&mut out, ")\nSystem: ");
    append_str(&mut out, os);
    append_str(&mut out, " (");
    append_str(&mut out, arch);
    append_str(&mut out, ")\n===============");
    proof {
        assert(out@ =~= global_context_spec(date, days as int, os@, arch@));
    }
    Some(string_of(&out))
}

/// `October 4, 2025`.
pub open spec fn friendly_spec(date: CivilDate) -> Seq<char> {
    month_name(date.month) + " "@ + decimal_of(date.day as nat) + ", "@ + decimal_of(
        date.year as nat,
    )
}

fn friendly_date(date: CivilDate) -> (r: Vec<char>)
    ensures
        r@ == friendly_spec(date),
{
    let mut out: Vec<char> = chars_of(month_name_exec(date.month));
    append_str(&mut out, " ");
    append_chars(&mut out, &decimal_chars_u64(date.day));
    append_str(&mut out, ", ");
    append_chars(&mut out, &decimal_chars_u64(date.year));
    proof {
        assert(out@ =~= friendly_spec(date));
    }
    out
}

/// `YYYY-MM-DD`.
pub open spec fn iso_date_spec(date: CivilDate) -> Seq<char> {
    padded(date.year as nat, 4) + "-"@ + padded(date.month as nat, 2) + "-"@ + padded(
        date.day as nat,
        2,
    )
}

/// `HH:MM:SS` of a second of the day.
pub open spec fn iso_time_spec(secs: nat) -> Seq<char> {
    padded(secs / 3600, 2) + ":"@ + padded((secs % 3600) / 60, 2) + ":"@ + padded(secs % 60, 2)
}

fn iso_date(date: CivilDate) -> (r: Vec<char>)
    ensures
        r@ == iso_date_spec(date),
{
    let mut out: Vec<char> = padded_exec(date.year, 4);
    append_str(&mut out, "-");
    append_chars(&mut out, &padded_exec(date.month, 2));
    append_str(&mut out, "-");
    append_chars(&mut out, &padded_exec(date.day, 2));
    proof {
        assert(out@ =~= iso_date_spec(date));
    }
    out
}

fn iso_time(secs: u64) -> (r: Vec<char>)
    ensures
        r@ == iso_time_spec(secs as nat),
{
    let mut out: Vec<char> = padded_exec(secs / 3600, 2);
    append_str(&mut out, ":");
    append_chars(&mut out, &padded_exec((secs % 3600) / 60, 2));
    append_str(&mut out, ":");
    append_chars(&mut out, &padded_exec(secs % 60, 2));
    proof {
        assert(out@ =~= iso_time_spec(secs as nat));
    }
    out
}

/// The two forms of the current date that the date tool returns.
pub struct DateTexts {
    pub iso8601: String,
    pub friendly: String,
}

/// ISO 8601 (`YYYY-MM-DDTHH:MM:SSZ`) and friendly (`October 4, 2025`) forms
/// of a moment given in seconds since 1970-01-01 UTC.
pub fn date_texts(timestamp_secs: u64) -> (r: Option<DateTexts>)
    ensures
        match civil_from_days_spec((timestamp_secs / 86400) as int) {
            Some(date) => r matches Some(t) && t.iso8601@ == iso_date_spec(date) + "T"@
                + iso_time_spec((timestamp_secs % 86400) as nat) + "Z"@ && t.friendly@
                == friendly_spec(date),
            None => r is None,
        },
{
    let days = timestamp_secs / 86400;
    let date = match civil_from_days(days) {
        Some(d) => d,
        None => {
            return None;
        },
    };
    let mut iso = iso_date(date);
    append_str(&mut iso, "T");
    append_chars(&mut iso, &iso_time(timestamp_secs % 86400));
    append_str(&mut iso, "Z");
    let friendly = friendly_date(date);
    Some(DateTexts { iso8601: string_of(&iso), friendly: string_of(&friendly) })
}

} // verus!
