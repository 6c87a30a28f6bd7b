//! Message times. A time is a count of ticks of 100 nanoseconds since the
//! start of the year 1601, in UTC.

use crate::text::{chars_string, opt_text, str_chars};
use chrono::TimeZone;
use vstd::prelude::*;

verus! {

/// The text `YYYY-MM-DD HH:MM:SS UTC` that `chrono` writes for the instant
/// `secs` seconds and `nanos` nanoseconds after the start of 1970, or
/// nothing where `chrono::Utc.timestamp_opt` has no single instant for them.
pub uninterp spec fn utc_text(secs: int, nanos: int) -> Option<Seq<char>>;

/// Seconds from the start of 1601 to the start of 1970.
pub const EPOCH_DIFF_SECS: i64 = 11_644_473_600;

/// Ticks in a second.
pub const TICKS_PER_SEC: u64 = 10_000_000;

/// The whole seconds of `ticks`, counted from the start of 1970. The
/// division rounds towards zero.
pub open spec fn filetime_secs(ticks: int) -> int {
    if ticks >= 0 {
        ticks / 10_000_000 - EPOCH_DIFF_SECS
    } else {
        -((-ticks) / 10_000_000) - EPOCH_DIFF_SECS
    }
}

/// The nanoseconds of `ticks` within the second, as an unsigned number of
/// 32 bits. Before 1601 the part of a second is negative and wraps around.
pub open spec fn filetime_nanos(ticks: int) -> int {
    if ticks >= 0 {
        (ticks % 10_000_000) * 100
    } else if (-ticks) % 10_000_000 == 0 {
        0
    } else {
        0x1_0000_0000 - ((-ticks) % 10_000_000) * 100
    }
}

/// The decimal digit for `d`, which is below ten.
pub open spec fn digit_char(d: int) -> char {
    ('0' as int + d) as char
}

/// `n` written in decimal digits.
pub open spec fn decimal(n: nat) -> Seq<char>
    decreases n,
{
    if n < 10 {
        seq![digit_char(n as int)]
    } else {
        decimal(n / 10).push(digit_char(n as int % 10))
    }
}

/// `n` written in decimal digits, with a minus sign where it is negative.
pub open spec fn signed_decimal(n: int) -> Seq<char> {
    if n < 0 {
        seq!['-'] + decimal((-n) as nat)
    } else {
        decimal(n as nat)
    }
}

/// The text shown for a time: date and time of day in UTC, or a note that
/// holds the tick count where the ticks name no instant.
pub open spec fn filetime_text(ticks: int) -> Seq<char> {
    time_text(ticks, utc_text(filetime_secs(ticks), filetime_nanos(ticks)))
}

/// The text shown for `ticks`, given what the calendar made of them.
pub open spec fn time_text(ticks: int, calendar: Option<Seq<char>>) -> Seq<char> {
    match calendar {
        Some(s) => s,
        None => "(invalid: "@ + signed_decimal(ticks) + ")"@,
    }
}

/// Calls `chrono::Utc.timestamp_opt` and formats the instant it gives with
/// `DateTime::format`; both depend on the two numbers alone. Nothing is
/// returned where `timestamp_opt` gives no single instant.
#[verifier::external_body]
fn utc_datetime_text(secs: i64, nanos: u32) -> (r: Option<String>)
    ensures
        r is Some <==> utc_text(secs as int, nanos as int) is Some,
        r matches Some(s) ==> utc_text(secs as int, nanos as int) == Some(s@),
{
    match chrono::Utc.timestamp_opt(secs, nanos) {
        chrono::LocalResult::Single(dt) => Some(dt.format("%Y-%m-%d %H:%M:%S UTC").to_string()),
        _ => None,
    }
}

/// Appends the decimal digits of `n` to `out`.
pub fn push_decimal(out: &mut Vec<char>, n: u64)
    ensures
        final(out)@ == old(out)@ + decimal(n as nat),
    decreases n,
{
    if n >= 10 {
        push_decimal(out, n / 10);
    }
    let d: u8 = (n % 10) as u8;
    out.push((48u8 + d) as char);
    proof {
        if n >= 10 {
            assert(out@ =~= old(out)@ + decimal(n as nat / 10).push(digit_char(n as int % 10)));
        } else {
            assert(out@ =~= old(out)@ + seq![digit_char(n as int)]);
        }
    }
}

/// The decimal digits of `n`.
pub fn decimal_string(n: u64) -> (s: String)
    ensures
        s@ == decimal(n as nat),
{
    let mut out: Vec<char> = Vec::new();
    push_decimal(&mut out, n);
    proof {
        assert(out@ =~= decimal(n as nat));
    }
    chars_string(&out)
}

/// Seconds since 1970 and nanoseconds of a tick count.
pub fn filetime_parts(ticks: i64) -> (r: (i64, u32))
    ensures
        r.0 == filetime_secs(ticks as int),
        r.1 == filetime_nanos(ticks as int),
{
    if ticks >= 0 {
        let t: u64 = ticks as u64;
        let secs: i64 = (t / TICKS_PER_SEC) as i64 - EPOCH_DIFF_SECS;
        let nanos: u32 = ((t % TICKS_PER_SEC) * 100) as u32;
        (secs, nanos)
    } else {
        let m: u64 = (-(ticks + 1)) as u64 + 1;
        let q: u64 = m / TICKS_PER_SEC;
        let r: u64 = m % TICKS_PER_SEC;
        let secs: i64 = -(q as i64) - EPOCH_DIFF_SECS;
        let nanos: u32 = if r == 0 {
            0
        } else {
            (0x1_0000_0000u64 - r * 100) as u32
        };
        (secs, nanos)
    }
}

/// The text shown for `ticks`, given what the calendar made of them.
pub fn time_string(ticks: i64, calendar: Option<String>) -> (s: String)
    ensures
        s@ == time_text(ticks as int, opt_text(calendar)),
{
    match calendar {
        Some(c) => c,
        None => {
            let mut out: Vec<char> = str_chars("(invalid: ");
            let ghost head = out@;
            if ticks < 0 {
                out.push('-');
                push_decimal(&mut out, (-(ticks + 1)) as u64 + 1);
                proof {
                    assert(out@ =~= head + (seq!['-'] + decimal((-ticks) as nat)));
                }
            } else {
                push_decimal(&mut out, ticks as u64);
            }
            out.push(')');
            proof {
                reveal_strlit(")");
                assert(")"@ =~= seq![')']);
                assert(out@ =~= "(invalid: "@ + signed_decimal(ticks as int) + ")"@);
            }
            chars_string(&out)
        },
    }
}

/// The text shown for a time, such as `2010-11-24 15:24:27 UTC`.
pub fn filetime_to_string(ticks: i64) -> (s: String)
    ensures
        s@ == filetime_text(ticks as int),
{
    let (secs, nanos) = filetime_parts(ticks);
    time_string(ticks, utc_datetime_text(secs, nanos))
}

} // verus!
