//! IMF-fixdate rendering of a Unix time, as used by `Date` and `Expires`.
use vstd::prelude::*;
use crate::text::push_char;

verus! {

/// Year, month (1-12) and day (1-31) of the proleptic Gregorian calendar for a
/// count of days since 1970-01-01.
pub open spec fn civil(days: nat) -> (int, int, int) {
    let z = days + 719468;
    let era = z / 146097;
    let doe = z - era * 146097;
    let yoe = (doe - doe / 1460 + doe / 36524 - doe / 146096) / 365;
    let doy = doe - (365 * yoe + yoe / 4 - yoe / 100);
    let mp = (5 * doy + 2) / 153;
    let d = doy - (153 * mp + 2) / 5 + 1;
    let m = if mp < 10 { mp + 3 } else { mp - 9 };
    let y = yoe + era * 400 + if m <= 2 { 1int } else { 0int };
    (y, m, d)
}

pub open spec fn weekday_name(w: int) -> Seq<char> {
    if w == 0 { "Sun"@ }
    else if w == 1 { "Mon"@ }
    else if w == 2 { "Tue"@ }
    else if w == 3 { "Wed"@ }
    else if w == 4 { "Thu"@ }
    else if w == 5 { "Fri"@ }
    else { "Sat"@ }
}

pub open spec fn month_name(m: int) -> Seq<char> {
    if m == 1 { "Jan"@ }
    else if m == 2 { "Feb"@ }
    else if m == 3 { "Mar"@ }
    else if m == 4 { "Apr"@ }
    else if m == 5 { "May"@ }
    else if m == 6 { "Jun"@ }
    else if m == 7 { "Jul"@ }
    else if m == 8 { "Aug"@ }
    else if m == 9 { "Sep"@ }
    else if m == 10 { "Oct"@ }
    else if m == 11 { "Nov"@ }
    else { "Dec"@ }
}

pub open spec fn digit(n: int) -> char {
    ((48 + n % 10) as u8) as char
}

/// The last `k` decimal digits of `n`, zero-padded.
pub open spec fn padded(n: int, k: nat) -> Seq<char>
    decreases k,
{
    if k == 0 {
        seq![]
    } else {
        padded(n / 10, (k - 1) as nat).push(digit(n))
    }
}

/// `Sun, 06 Nov 1994 08:49:37 GMT` for the given seconds since the epoch.
#[verifier::opaque]
pub open spec fn imf_date(secs: nat) -> Seq<char> {
    let days = secs / 86400;
    let rem: int = (secs % 86400) as int;
    let (y, m, d) = civil(days);
    weekday_name(((days + 4) % 7) as int) + ", "@ + padded(d, 2) + " "@ + month_name(m) + " "@
        + padded(y, 4) + " "@ + padded(rem / 3600, 2) + ":"@ + padded((rem % 3600) / 60, 2) + ":"@
        + padded(rem % 60, 2) + " GMT"@
}

fn push_padded(s: &mut String, n: u64, k: u64)
    ensures
        final(s)@ == old(s)@ + padded(n as int, k as nat),
    decreases k,
{
    if k > 0 {
        push_padded(s, n / 10, k - 1);
        push_char(s, ((48 + n % 10) as u8) as char);
    }
    assert(final(s)@ =~= old(s)@ + padded(n as int, k as nat));
}

fn weekday(w: u64) -> (r: &'static str)
    ensures
        r@ == weekday_name(w as int),
{
    match w {
        0 => "Sun",
        1 => "Mon",
        2 => "Tue",
        3 => "Wed",
        4 => "Thu",
        5 => "Fri",
        _ => "Sat",
    }
}

fn month(m: u64) -> (r: &'static str)
    ensures
        r@ == month_name(m as int),
{
    match m {
        1 => "Jan",
        2 => "Feb",
        3 => "Mar",
        4 => "Apr",
        5 => "May",
        6 => "Jun",
        7 => "Jul",
        8 => "Aug",
        9 => "Sep",
        10 => "Oct",
        11 => "Nov",
        _ => "Dec",
    }
}

proof fn lemma_civil_bounds(doe: int)
    requires
        0 <= doe < 146097,
    ensures
        ({
            let yoe = (doe - doe / 1460 + doe / 36524 - doe / 146096) / 365;
            let doy = doe - (365 * yoe + yoe / 4 - yoe / 100);
            &&& 0 <= yoe <= 399
            &&& 0 <= doy <= 365
        }),
{
    let yoe = (doe - doe / 1460 + doe / 36524 - doe / 146096) / 365;
    let t = doe - doe / 1460 + doe / 36524 - doe / 146096;
    assert(0 <= t < 146000) by (nonlinear_arith)
        requires 0 <= doe < 146097, t == doe - doe / 1460 + doe / 36524 - doe / 146096;
    assert(0 <= yoe <= 399) by (nonlinear_arith)
        requires 0 <= t < 146000, yoe == t / 365;
    assert(365 * yoe <= t) by (nonlinear_arith)
        requires yoe == t / 365, t >= 0;
    assert(t < 365 * yoe + 365) by (nonlinear_arith)
        requires yoe == t / 365, t >= 0;
    let doy = doe - (365 * yoe + yoe / 4 - yoe / 100);
    assert(0 <= doy <= 365) by (nonlinear_arith)
        requires
            365 * yoe <= t,
            t < 365 * yoe + 365,
            t == doe - doe / 1460 + doe / 36524 - doe / 146096,
            doy == doe - (365 * yoe + yoe / 4 - yoe / 100),
            0 <= doe < 146097,
            0 <= yoe <= 399;
}

/// Renders `secs` (seconds since 1970-01-01 UTC) as an IMF-fixdate.
pub fn http_date(secs: u64) -> (r: String)
    ensures
        r@ == imf_date(secs as nat),
{
    let days = secs / 86400;
    let rem = secs % 86400;
    let z = days + 719468;
    let era = z / 146097;
    let doe = z - era * 146097;
    proof {
        lemma_civil_bounds(doe as int);
    }
    let yoe = (doe - doe / 1460 + doe / 36524 - doe / 146096) / 365;
    let doy = doe - (365 * yoe + yoe / 4 - yoe / 100);
    let mp = (5 * doy + 2) / 153;
    let d = doy - (153 * mp + 2) / 5 + 1;
    let m = if mp < 10 { mp + 3 } else { mp - 9 };
    let y = yoe + era * 400 + if m <= 2 { 1u64 } else { 0u64 };
    let mut s = String::new();
    s.append(weekday((days + 4) % 7));
    s.append(", ");
    push_padded(&mut s, d, 2);
    s.append(" ");
    s.append(month(m));
    s.append(" ");
    push_padded(&mut s, y, 4);
    s.append(" ");
    push_padded(&mut s, rem / 3600, 2);
    s.append(":");
    push_padded(&mut s, (rem % 3600) / 60, 2);
    s.append(":");
    push_padded(&mut s, rem % 60, 2);
    s.append(" GMT");
    proof {
        reveal(imf_date);
    }
    assert(s@ =~= imf_date(secs as nat));
    s
}

} // verus!
