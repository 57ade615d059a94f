//! Timestamp formatting for the git panel's History tab (relative time), the
//! commit-view header (absolute UTC date), and the Review launcher's Pull
//! Requests tab (an RFC 3339 string parsed into relative time), all from a
//! Unix timestamp in seconds, with plain civil-calendar arithmetic.
use vstd::prelude::*;

use crate::decimal::{dec, push_i64_padded, push_u64, push_u64_padded, signed_padded, zero_pad};
use crate::parse::{first_index_of, parse_i64, parse_i64_spec, parse_u32, parse_u32_spec, split_ranges, split_seq};
use crate::text::{chars_of, push_all, push_char};

verus! {

/// Whether `y` is a leap year in the proleptic Gregorian calendar.
pub open spec fn is_leap(y: int) -> bool {
    y % 4 == 0 && (y % 100 != 0 || y % 400 == 0)
}

/// The number of days in month `m` (1-12) of year `y`.
pub open spec fn days_in_month(y: int, m: int) -> int {
    if m == 2 {
        if is_leap(y) { 29 } else { 28 }
    } else if m == 4 || m == 6 || m == 9 || m == 11 {
        30
    } else {
        31
    }
}

/// Whether `(y, m, d)` names a real calendar day.
pub open spec fn valid_date(y: int, m: int, d: int) -> bool {
    1 <= m <= 12 && 1 <= d <= days_in_month(y, m)
}

/// Days since 1970-01-01 of the date `(y, m, d)`: whole 400-year eras of
/// 146097 days, plus the day of the era counted in March-based years (a
/// year's leap day is then its last day).
pub open spec fn days_spec(y: int, m: int, d: int) -> int {
    let yp = if m <= 2 { y - 1 } else { y };
    let era = yp / 400;
    let yoe = yp - era * 400;
    let doy = (153 * (if m > 2 { m - 3 } else { m + 9 }) + 2) / 5 + d - 1;
    let doe = yoe * 365 + yoe / 4 - yoe / 100 + doy;
    era * 146097 + doe - 719468
}

/// The day of a 400-year era's March-based year.
pub open spec fn yoe_of(doe: int) -> int {
    (doe - doe / 1460 + doe / 36524 - doe / 146096) / 365
}

/// The calendar date `(year, month, day)` of day `z` since 1970-01-01.
pub open spec fn civil_spec(z: int) -> (int, int, int) {
    let zz = z + 719468;
    let era = zz / 146097;
    let doe = zz - era * 146097;
    let yoe = yoe_of(doe);
    let y = yoe + era * 400;
    let doy = doe - (365 * yoe + yoe / 4 - yoe / 100);
    let mp = (5 * doy + 2) / 153;
    let d = doy - (153 * mp + 2) / 5 + 1;
    let m = if mp < 10 { mp + 3 } else { mp - 9 };
    (if m <= 2 { y + 1 } else { y }, m, d)
}

proof fn lemma_year_of_era(doe: u32)
    requires
        doe <= 146096,
    ensures
        ({
            let yoe = (doe - doe / 1460 + doe / 36524 - doe / 146096) / 365;
            &&& yoe <= 399
            &&& 365 * yoe + yoe / 4 - yoe / 100 <= doe
            &&& doe - (365 * yoe + yoe / 4 - yoe / 100) <= 365
        }),
{
    assert({
        let yoe = (doe - doe / 1460 + doe / 36524 - doe / 146096) / 365;
        &&& yoe <= 399
        &&& 365 * yoe + yoe / 4 - yoe / 100 <= doe
        &&& doe - (365 * yoe + yoe / 4 - yoe / 100) <= 365
    }) by (bit_vector)
        requires
            doe <= 146096,
    ;
}

proof fn lemma_leap_day_is_in_a_leap_year(doe: u32)
    requires
        doe <= 146096,
    ensures
        ({
            let yoe = (doe - doe / 1460 + doe / 36524 - doe / 146096) / 365;
            let doy = doe - (365 * yoe + yoe / 4 - yoe / 100);
            let yy = yoe + 1;
            doy == 365 ==> (yy % 4 == 0 && (yy % 100 != 0 || yy % 400 == 0))
        }),
{
    assert({
        let yoe = (doe - doe / 1460 + doe / 36524 - doe / 146096) / 365;
        let doy = doe - (365 * yoe + yoe / 4 - yoe / 100);
        let yy = yoe + 1;
        doy == 365 ==> (yy % 4 == 0 && (yy % 100 != 0 || yy % 400 == 0))
    }) by (bit_vector)
        requires
            doe <= 146096,
    ;
}

proof fn lemma_month_and_day(doy: u32)
    requires
        doy <= 365,
    ensures
        ({
            let mp = (5 * doy + 2) / 153;
            let d = doy - (153 * mp + 2) / 5 + 1;
            let m = if mp < 10 { mp + 3 } else { mp - 9 };
            let dim = if m == 2 { 28u32 } else if m == 4 || m == 6 || m == 9 || m == 11 { 30u32 } else { 31u32 };
            &&& mp <= 11
            &&& 1 <= d
            &&& (d <= dim || (doy == 365 && m == 2 && d == 29))
        }),
{
    assert({
        let mp = (5 * doy + 2) / 153;
        let d = doy - (153 * mp + 2) / 5 + 1;
        let m = if mp < 10 { mp + 3 } else { mp - 9 };
        let dim = if m == 2 { 28u32 } else if m == 4 || m == 6 || m == 9 || m == 11 { 30u32 } else { 31u32 };
        &&& mp <= 11
        &&& 1 <= d
        &&& (d <= dim || (doy == 365 && m == 2 && d == 29))
    }) by (bit_vector)
        requires
            doy <= 365,
    ;
}

proof fn lemma_civil_parts(z: int)
    ensures
        ({
            let zz = z + 719468;
            let era = zz / 146097;
            let doe = zz - era * 146097;
            let yoe = yoe_of(doe);
            let doy = doe - (365 * yoe + yoe / 4 - yoe / 100);
            let mp = (5 * doy + 2) / 153;
            &&& 0 <= doe <= 146096
            &&& 0 <= yoe <= 399
            &&& 0 <= doy <= 365
            &&& 0 <= mp <= 11
        }),
{
    let zz = z + 719468;
    let era = zz / 146097;
    let doe = zz - era * 146097;
    assert(0 <= doe <= 146096);
    let d32 = doe as u32;
    lemma_year_of_era(d32);
    let yoe = yoe_of(doe);
    let doy = doe - (365 * yoe + yoe / 4 - yoe / 100);
    assert(0 <= yoe);
    lemma_month_and_day(doy as u32);
}

/// Every day number names a valid calendar date.
pub proof fn lemma_civil_is_a_valid_date(z: int)
    ensures
        valid_date(civil_spec(z).0, civil_spec(z).1, civil_spec(z).2),
{
    lemma_civil_parts(z);
    let zz = z + 719468;
    let era = zz / 146097;
    let doe = zz - era * 146097;
    let yoe = yoe_of(doe);
    let doy = doe - (365 * yoe + yoe / 4 - yoe / 100);
    lemma_month_and_day(doy as u32);
    lemma_leap_day_is_in_a_leap_year(doe as u32);
    let (y, m, d) = civil_spec(z);
    if doy == 365 {
        assert(y == yoe + 1 + era * 400);
        assert(is_leap(yoe + 1));
        assert((yoe + 1 + era * 400) % 4 == (yoe + 1) % 4);
        assert((yoe + 1 + era * 400) % 100 == (yoe + 1) % 100);
        assert((yoe + 1 + era * 400) % 400 == (yoe + 1) % 400);
    }
}

/// `days_from_civil` undoes `civil_from_days`: the day number of the date
/// of day `z` is `z`.
pub proof fn lemma_days_of_civil(z: int)
    ensures
        days_spec(civil_spec(z).0, civil_spec(z).1, civil_spec(z).2) == z,
{
    lemma_civil_parts(z);
    let zz = z + 719468;
    let era = zz / 146097;
    let doe = zz - era * 146097;
    let yoe = yoe_of(doe);
    let y = yoe + era * 400;
    let doy = doe - (365 * yoe + yoe / 4 - yoe / 100);
    let mp = (5 * doy + 2) / 153;
    let d = doy - (153 * mp + 2) / 5 + 1;
    let m = if mp < 10 { mp + 3 } else { mp - 9 };
    let yy = if m <= 2 { y + 1 } else { y };
    let yp = if m <= 2 { yy - 1 } else { yy };
    assert(yp == y);
    assert(y / 400 == era);
    assert(y - era * 400 == yoe);
    assert((if m > 2 { m - 3 } else { m + 9 }) == mp);
}

/// Days since the Unix epoch of `(y, m, d)`, computed without overflow for
/// the whole `i64` year range.
fn days_from_civil_wide(y: i64, m: u32, d: u32) -> (r: i128)
    ensures
        r == days_spec(y as int, m as int, d as int),
{
    let y = y as i128;
    let yp: i128 = if m <= 2 {
        y - 1
    } else {
        y
    };
    let era: i128 = if yp >= 0 {
        yp / 400
    } else {
        (yp + 1) / 400 - 1
    };
    assert(era == yp / 400);
    let yoe = yp - era * 400;
    let mi = m as i128;
    let di = d as i128;
    let doy = (153 * (if mi > 2 {
        mi - 3
    } else {
        mi + 9
    }) + 2) / 5 + di - 1;
    let doe = yoe * 365 + yoe / 4 - yoe / 100 + doy;
    era * 146_097 + doe - 719_468
}

/// Whether every intermediate value of the day-count arithmetic for
/// `(y, m, d)` fits in an `i64`.
pub open spec fn civil_days_fit(y: int, m: int, d: int) -> bool {
    let yp = if m <= 2 { y - 1 } else { y };
    let in_range = |v: int| i64::MIN <= v <= i64::MAX;
    &&& in_range(yp)
    &&& in_range(yp - 399)
    &&& in_range((yp / 400) * 146097)
    &&& in_range(days_spec(y, m, d) + 719468)
    &&& in_range(days_spec(y, m, d))
}

/// Days since the Unix epoch (1970-01-01) of the proleptic-Gregorian date
/// `(y, m, d)`: the inverse of the calendar-date computation behind
/// [`absolute_date`] (see [`lemma_days_of_civil`]).
pub fn days_from_civil(y: i64, m: u32, d: u32) -> (r: i64)
    requires
        civil_days_fit(y as int, m as int, d as int),
    ensures
        r == days_spec(y as int, m as int, d as int),
{
    days_from_civil_wide(y, m, d) as i64
}

/// The calendar date of day `z` since 1970-01-01.
fn civil_from_days(z: i64) -> (r: (i64, u32, u32))
    requires
        -0x4000_0000_0000_0000 <= z <= 0x4000_0000_0000_0000,
    ensures
        (r.0 as int, r.1 as int, r.2 as int) == civil_spec(z as int),
{
    proof {
        lemma_civil_parts(z as int);
    }
    let zz = z + 719_468;
    let era: i64 = if zz >= 0 {
        zz / 146_097
    } else {
        (zz + 1) / 146_097 - 1
    };
    assert(era == zz / 146097);
    let doe = zz - era * 146_097;
    let yoe = (doe - doe / 1460 + doe / 36524 - doe / 146_096) / 365;
    assert(yoe == yoe_of(doe as int));
    let y = yoe + era * 400;
    let doy = doe - (365 * yoe + yoe / 4 - yoe / 100);
    let mp = (5 * doy + 2) / 153;
    let d = doy - (153 * mp + 2) / 5 + 1;
    let m = if mp < 10 {
        mp + 3
    } else {
        mp - 9
    };
    let y = if m <= 2 {
        y + 1
    } else {
        y
    };
    (y, m as u32, d as u32)
}

/// Seconds elapsed from `ts` to `now`, saturated into `0..=i64::MAX`.
pub open spec fn elapsed(now: int, ts: int) -> int {
    let s = now - ts;
    if s < 0 {
        0
    } else if s > i64::MAX {
        i64::MAX as int
    } else {
        s
    }
}

/// The GitHub-style relative label for `ts` seen at `now`.
pub open spec fn relative_spec(now: int, ts: int) -> Seq<char> {
    let secs = elapsed(now, ts);
    if secs < 60 {
        "just now"@
    } else if secs < 3600 {
        dec((secs / 60) as nat) + "m ago"@
    } else if secs < 86400 {
        dec((secs / 3600) as nat) + "h ago"@
    } else if secs < 2592000 {
        dec((secs / 86400) as nat) + "d ago"@
    } else if secs < 31536000 {
        dec((secs / 2592000) as nat) + "mo ago"@
    } else {
        dec((secs / 31536000) as nat) + "y ago"@
    }
}

/// Anything at least a day and under thirty days old reads as its whole
/// number of days: `"Nd ago"`.
pub proof fn lemma_days_label(now: int, ts: int)
    requires
        86400 <= elapsed(now, ts) < 30 * 86400,
    ensures
        relative_spec(now, ts) == dec((elapsed(now, ts) / 86400) as nat) + "d ago"@,
        1 <= elapsed(now, ts) / 86400 < 30,
{
}

/// Every label but `"just now"` counts at least one whole unit: it is a
/// number no smaller than 1 followed by one of the unit suffixes, and that
/// number times the unit's length is no more than the time elapsed.
pub proof fn lemma_labels_count_whole_units(now: int, ts: int)
    requires
        elapsed(now, ts) >= 60,
    ensures
        exists|n: nat, unit: int|
            {
                &&& n >= 1
                &&& n * unit <= elapsed(now, ts)
                &&& (unit == 60 || unit == 3600 || unit == 86400 || unit == 2592000 || unit == 31536000)
                &&& #[trigger] relative_spec(now, ts) == dec(n) + unit_suffix(unit)
            },
{
    let s = elapsed(now, ts);
    if s < 3600 {
        assert(relative_spec(now, ts) == dec((s / 60) as nat) + unit_suffix(60));
        assert((s / 60) * 60 <= s) by (nonlinear_arith)
            requires s >= 0;
    } else if s < 86400 {
        assert(relative_spec(now, ts) == dec((s / 3600) as nat) + unit_suffix(3600));
        assert((s / 3600) * 3600 <= s) by (nonlinear_arith)
            requires s >= 0;
    } else if s < 2592000 {
        assert(relative_spec(now, ts) == dec((s / 86400) as nat) + unit_suffix(86400));
        assert((s / 86400) * 86400 <= s) by (nonlinear_arith)
            requires s >= 0;
    } else if s < 31536000 {
        assert(relative_spec(now, ts) == dec((s / 2592000) as nat) + unit_suffix(2592000));
        assert((s / 2592000) * 2592000 <= s) by (nonlinear_arith)
            requires s >= 0;
    } else {
        assert(relative_spec(now, ts) == dec((s / 31536000) as nat) + unit_suffix(31536000));
        assert((s / 31536000) * 31536000 <= s) by (nonlinear_arith)
            requires s >= 0;
    }
}

/// The suffix a relative label gives a count of `unit`-second units.
pub open spec fn unit_suffix(unit: int) -> Seq<char> {
    if unit == 60 {
        "m ago"@
    } else if unit == 3600 {
        "h ago"@
    } else if unit == 86400 {
        "d ago"@
    } else if unit == 2592000 {
        "mo ago"@
    } else {
        "y ago"@
    }
}

/// Formats `ts` relative to `now` (both Unix seconds): `"just now"`,
/// `"Nm ago"`, `"Nh ago"`, `"Nd ago"`, `"Nmo ago"` (30-day months),
/// `"Ny ago"` (365-day years). A `ts` in the future clamps to `"just now"`.
pub fn relative_time(now: i64, ts: i64) -> (out: String)
    ensures
        out@ == relative_spec(now as int, ts as int),
{
    let diff = now as i128 - ts as i128;
    let secs: i64 = if diff < 0 {
        0
    } else if diff > i64::MAX as i128 {
        i64::MAX
    } else {
        diff as i64
    };
    let mut out = String::new();
    if secs < 60 {
        push_all(&mut out, "just now");
    } else {
        let (n, unit) = if secs < 3600 {
            (secs / 60, "m ago")
        } else if secs < 86400 {
            (secs / 3600, "h ago")
        } else if secs < 2_592_000 {
            (secs / 86400, "d ago")
        } else if secs < 31_536_000 {
            (secs / 2_592_000, "mo ago")
        } else {
            (secs / 31_536_000, "y ago")
        };
        push_u64(&mut out, n as u64);
        push_all(&mut out, unit);
    }
    assert(out@ =~= relative_spec(now as int, ts as int));
    out
}

/// The `YYYY-MM-DD hh:mm UTC` rendering of the Unix timestamp `ts`.
pub open spec fn absolute_spec(ts: int) -> Seq<char> {
    let days = ts / 86400;
    let sod = ts % 86400;
    let (y, m, d) = civil_spec(days);
    signed_padded(y, 4) + seq!['-'] + zero_pad(dec(m as nat), 2) + seq!['-'] + zero_pad(
        dec(d as nat),
        2,
    ) + seq![' '] + zero_pad(dec((sod / 3600) as nat), 2) + seq![':'] + zero_pad(
        dec(((sod % 3600) / 60) as nat),
        2,
    ) + " UTC"@
}

/// Formats `ts` (Unix seconds) as an absolute UTC date/time for the
/// commit-view header: `"2024-01-02 03:04 UTC"`.
pub fn absolute_date(ts: i64) -> (out: String)
    ensures
        out@ == absolute_spec(ts as int),
{
    let days: i64 = if ts >= 0 {
        ts / 86400
    } else {
        (ts + 1) / 86400 - 1
    };
    assert(days == ts / 86400);
    let secs_of_day = (ts as i128 - days as i128 * 86400) as i64;
    assert(secs_of_day == ts % 86400);
    proof {
        lemma_civil_is_a_valid_date(days as int);
    }
    let (y, m, d) = civil_from_days(days);
    let hh = secs_of_day / 3600;
    let mm = (secs_of_day % 3600) / 60;
    let mut out = String::new();
    push_i64_padded(&mut out, y, 4);
    push_char(&mut out, '-');
    push_u64_padded(&mut out, m as u64, 2);
    push_char(&mut out, '-');
    push_u64_padded(&mut out, d as u64, 2);
    push_char(&mut out, ' ');
    push_u64_padded(&mut out, hh as u64, 2);
    push_char(&mut out, ':');
    push_u64_padded(&mut out, mm as u64, 2);
    push_all(&mut out, " UTC");
    assert(out@ =~= absolute_spec(ts as int));
    out
}

/// Index of the first char of `s` that is `Z`, `+`, `-` or `.`: where a
/// time's zone designator, UTC offset or fractional seconds begin.
pub open spec fn first_suffix_index(s: Seq<char>) -> Option<int>
    decreases s.len(),
{
    if s.len() == 0 {
        None
    } else if s[0] == 'Z' || s[0] == '+' || s[0] == '-' || s[0] == '.' {
        Some(0)
    } else {
        match first_suffix_index(s.drop_first()) {
            Some(i) => Some(i + 1),
            None => None,
        }
    }
}

/// The `(year, month, day, hour, minute, second)` fields an RFC 3339
/// timestamp `s` reads as: the date before the first `T` split on `-`, and
/// the time after it, with any `Z`/`+`/`-`/`.` suffix cut off, split on `:` (a
/// missing seconds field reads as 0). `None` if any field is absent or not
/// an integer.
pub open spec fn rfc3339_fields(s: Seq<char>) -> Option<(i64, u32, u32, i64, i64, i64)> {
    match first_index_of(s, 'T') {
        None => None,
        Some(t) => {
            let date = s.take(t);
            let time0 = s.skip(t + 1);
            let time = match first_suffix_index(time0) {
                Some(k) => time0.take(k),
                None => time0,
            };
            let dp = split_seq(date, '-');
            let tp = split_seq(time, ':');
            let second = if tp.len() >= 3 { parse_i64_spec(tp[2]) } else { Some(0i64) };
            if dp.len() < 3 || tp.len() < 2 {
                None
            } else {
                match (
                    parse_i64_spec(dp[0]),
                    parse_u32_spec(dp[1]),
                    parse_u32_spec(dp[2]),
                    parse_i64_spec(tp[0]),
                    parse_i64_spec(tp[1]),
                    second,
                ) {
                    (Some(y), Some(mo), Some(d), Some(h), Some(mi), Some(se)) => Some(
                        (y, mo, d, h, mi, se),
                    ),
                    _ => None,
                }
            }
        },
    }
}

/// The Unix timestamp the fields of an RFC 3339 string denote.
pub open spec fn fields_seconds(f: (i64, u32, u32, i64, i64, i64)) -> int {
    days_spec(f.0 as int, f.1 as int, f.2 as int) * 86400 + f.3 * 3600 + f.4 * 60 + f.5
}

/// Whether every intermediate value of the timestamp arithmetic for `f`
/// fits in an `i64` (the day count, each scaled field, and each partial sum).
pub open spec fn fields_fit(f: (i64, u32, u32, i64, i64, i64)) -> bool {
    let days = days_spec(f.0 as int, f.1 as int, f.2 as int);
    let yp = if f.1 <= 2 { f.0 - 1 } else { f.0 as int };
    let era = yp / 400;
    let in_range = |v: int| i64::MIN <= v <= i64::MAX;
    &&& in_range(yp)
    &&& in_range(yp - 399)
    &&& in_range(era * 146097)
    &&& in_range(days + 719468)
    &&& in_range(days)
    &&& in_range(days * 86400)
    &&& in_range(f.3 * 3600)
    &&& in_range(f.4 * 60)
    &&& in_range(days * 86400 + f.3 * 3600)
    &&& in_range(days * 86400 + f.3 * 3600 + f.4 * 60)
    &&& in_range(fields_seconds(f))
}

/// Whether parsing `s` stays within `i64` arithmetic (trivially so when
/// `s` is not a timestamp at all).
pub open spec fn rfc3339_fits(s: Seq<char>) -> bool {
    match rfc3339_fields(s) {
        Some(f) => fields_fit(f),
        None => true,
    }
}

/// What [`parse_rfc3339_to_unix`] gives for `s`.
pub open spec fn rfc3339_spec(s: Seq<char>) -> Option<i64> {
    match rfc3339_fields(s) {
        Some(f) => Some(fields_seconds(f) as i64),
        None => None,
    }
}

/// Index of the first `Z`/`+`/`-`/`.` in `cs[from..]`, as an absolute index,
/// or `cs.len()` if there is none.
fn suffix_cut(cs: &[char], from: usize) -> (r: usize)
    requires
        from <= cs.len(),
    ensures
        from <= r <= cs.len(),
        match first_suffix_index(cs@.skip(from as int)) {
            Some(k) => r == from + k,
            None => r == cs.len(),
        },
{
    let mut i = from;
    while i < cs.len() && !(cs[i] == 'Z' || cs[i] == '+' || cs[i] == '-' || cs[i] == '.')
        invariant
            from <= i <= cs.len(),
            forall|k: int| from <= k < i ==> !(cs@[k] == 'Z' || cs@[k] == '+' || cs@[k] == '-' || cs@[k] == '.'),
        decreases cs.len() - i,
    {
        i = i + 1;
    }
    proof {
        lemma_suffix_scan(cs@, from as int, i as int);
    }
    i
}

proof fn lemma_suffix_scan(s: Seq<char>, pos: int, j: int)
    requires
        0 <= pos <= j <= s.len(),
        forall|k: int| pos <= k < j ==> !(s[k] == 'Z' || s[k] == '+' || s[k] == '-' || s[k] == '.'),
        j < s.len() ==> (s[j] == 'Z' || s[j] == '+' || s[j] == '-' || s[j] == '.'),
    ensures
        j < s.len() ==> first_suffix_index(s.skip(pos)) == Some(j - pos),
        j == s.len() ==> first_suffix_index(s.skip(pos)) == None::<int>,
    decreases j - pos,
{
    let t = s.skip(pos);
    if pos < j {
        assert(t[0] == s[pos]);
        assert(t.drop_first() =~= s.skip(pos + 1));
        lemma_suffix_scan(s, pos + 1, j);
    } else if j < s.len() {
        assert(t[0] == s[j]);
    } else {
        assert(t.len() == 0);
    }
}

proof fn lemma_first_t(s: Seq<char>, j: int)
    requires
        0 <= j <= s.len(),
        forall|k: int| 0 <= k < j ==> s[k] != 'T',
        j < s.len() ==> s[j] == 'T',
    ensures
        j < s.len() ==> first_index_of(s, 'T') == Some(j),
        j == s.len() ==> first_index_of(s, 'T') == None::<int>,
    decreases j,
{
    if j > 0 {
        assert forall|k: int| 0 <= k < j - 1 implies s.drop_first()[k] != 'T' by {
            assert(s.drop_first()[k] == s[k + 1]);
        }
        lemma_first_t(s.drop_first(), j - 1);
    }
}

/// Parses an RFC 3339 timestamp (`YYYY-MM-DDThh:mm:ss…`) into Unix seconds.
/// Timezone-naive: a trailing `Z`, offset (`+…`/`-…`) or `.…` suffix is ignored. `None` on any
/// shape it can't read.
pub fn parse_rfc3339_to_unix(s: &str) -> (r: Option<i64>)
    requires
        rfc3339_fits(s@),
    ensures
        r == rfc3339_spec(s@),
{
    let cs = chars_of(s);
    let mut t: usize = 0;
    while t < cs.len() && cs[t] != 'T'
        invariant
            t <= cs.len(),
            forall|k: int| 0 <= k < t ==> cs@[k] != 'T',
        decreases cs.len() - t,
    {
        t = t + 1;
    }
    proof {
        lemma_first_t(cs@, t as int);
    }
    if t == cs.len() {
        return None;
    }
    let date: Vec<char> = slice_chars(&cs, 0, t);
    let cut = suffix_cut(&cs, t + 1);
    let time: Vec<char> = slice_chars(&cs, t + 1, cut);
    proof {
        assert(date@ =~= cs@.take(t as int));
        let time0 = cs@.skip(t + 1);
        match first_suffix_index(time0) {
            Some(k) => {
                assert(time@ =~= time0.take(k));
            },
            None => {
                assert(time@ =~= time0);
            },
        }
    }
    let dp = split_ranges(&date, '-');
    let tp = split_ranges(&time, ':');
    if dp.len() < 3 || tp.len() < 2 {
        return None;
    }
    let year = parse_i64(&date, dp[0].0, dp[0].1);
    let month = parse_u32(&date, dp[1].0, dp[1].1);
    let day = parse_u32(&date, dp[2].0, dp[2].1);
    let hour = parse_i64(&time, tp[0].0, tp[0].1);
    let minute = parse_i64(&time, tp[1].0, tp[1].1);
    let second = if tp.len() >= 3 {
        parse_i64(&time, tp[2].0, tp[2].1)
    } else {
        Some(0)
    };
    match (year, month, day, hour, minute, second) {
        (Some(y), Some(mo), Some(d), Some(h), Some(mi), Some(se)) => {
            let days = days_from_civil_wide(y, mo, d);
            let total = days * 86_400 + (h as i128) * 3_600 + (mi as i128) * 60 + (se as i128);
            Some(total as i64)
        },
        _ => None,
    }
}

/// `cs[from..to]` as a new vector.
fn slice_chars(cs: &[char], from: usize, to: usize) -> (out: Vec<char>)
    requires
        from <= to <= cs.len(),
    ensures
        out@ == cs@.subrange(from as int, to as int),
{
    let mut out: Vec<char> = Vec::new();
    let mut i = from;
    while i < to
        invariant
            from <= i <= to <= cs.len(),
            out@ == cs@.subrange(from as int, i as int),
        decreases to - i,
    {
        out.push(cs[i]);
        i = i + 1;
        assert(out@ =~= cs@.subrange(from as int, i as int));
    }
    out
}

/// Whether parsing `s` as an RFC 3339 timestamp stays within `i64`
/// arithmetic: callers holding an arbitrary string test this first.
pub fn rfc3339_fits_i64(s: &str) -> (b: bool)
    ensures
        b == rfc3339_fits(s@),
{
    let cs = chars_of(s);
    let mut t: usize = 0;
    while t < cs.len() && cs[t] != 'T'
        invariant
            t <= cs.len(),
            forall|k: int| 0 <= k < t ==> cs@[k] != 'T',
        decreases cs.len() - t,
    {
        t = t + 1;
    }
    proof {
        lemma_first_t(cs@, t as int);
    }
    if t == cs.len() {
        return true;
    }
    let date: Vec<char> = slice_chars(&cs, 0, t);
    let cut = suffix_cut(&cs, t + 1);
    let time: Vec<char> = slice_chars(&cs, t + 1, cut);
    proof {
        assert(date@ =~= cs@.take(t as int));
        let time0 = cs@.skip(t + 1);
        match first_suffix_index(time0) {
            Some(k) => {
                assert(time@ =~= time0.take(k));
            },
            None => {
                assert(time@ =~= time0);
            },
        }
    }
    let dp = split_ranges(&date, '-');
    let tp = split_ranges(&time, ':');
    if dp.len() < 3 || tp.len() < 2 {
        return true;
    }
    let year = parse_i64(&date, dp[0].0, dp[0].1);
    let month = parse_u32(&date, dp[1].0, dp[1].1);
    let day = parse_u32(&date, dp[2].0, dp[2].1);
    let hour = parse_i64(&time, tp[0].0, tp[0].1);
    let minute = parse_i64(&time, tp[1].0, tp[1].1);
    let second = if tp.len() >= 3 {
        parse_i64(&time, tp[2].0, tp[2].1)
    } else {
        Some(0)
    };
    match (year, month, day, hour, minute, second) {
        (Some(y), Some(mo), Some(d), Some(h), Some(mi), Some(se)) => fields_fit_exec(
            y,
            mo,
            d,
            h,
            mi,
            se,
        ),
        _ => true,
    }
}

/// Whether `v` fits in an `i64`.
fn fits_i64(v: i128) -> (r: bool)
    ensures
        r == (i64::MIN <= v <= i64::MAX),
{
    -9_223_372_036_854_775_808 <= v && v <= 9_223_372_036_854_775_807
}

/// [`fields_fit`], computed.
fn fields_fit_exec(y: i64, mo: u32, d: u32, h: i64, mi: i64, se: i64) -> (r: bool)
    ensures
        r == fields_fit((y, mo, d, h, mi, se)),
{
    let yi = y as i128;
    let yp: i128 = if mo <= 2 {
        yi - 1
    } else {
        yi
    };
    let era: i128 = if yp >= 0 {
        yp / 400
    } else {
        (yp + 1) / 400 - 1
    };
    assert(era == yp / 400);
    let days = days_from_civil_wide(y, mo, d);
    let a = days * 86_400;
    let b = (h as i128) * 3_600;
    let c = (mi as i128) * 60;
    let total = a + b + c + (se as i128);
    fits_i64(yp) && fits_i64(yp - 399) && fits_i64(era * 146_097) && fits_i64(days + 719_468)
        && fits_i64(days) && fits_i64(a) && fits_i64(b) && fits_i64(c) && fits_i64(a + b) && fits_i64(
        a + b + c,
    ) && fits_i64(total)
}

} // verus!
