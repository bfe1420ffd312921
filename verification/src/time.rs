//! Civil-time arithmetic on plain integers.
//!
//! Timestamps stay unix seconds throughout the runtime; only rendering needs
//! a calendar. The calendar is the proleptic Gregorian one, anchored by
//! [`days_from_civil_spec`]: the verified conversion back from a day number
//! is proved to invert it exactly.

use vstd::prelude::*;

use crate::util::dec_str;
use crate::util::i64_string;
use crate::util::int_str;
use crate::util::pad2;
use crate::util::pad2_str;
use crate::util::u64_string;

verus! {

/// Greatest day number reachable from an `i64` count of seconds.
pub const MAX_DAY: i64 = 106751991167301;

/// Floor (Euclidean) division by a positive constant.
fn fdiv(x: i64, d: i64) -> (q: i64)
    requires
        d > 0,
    ensures
        q == x as int / d as int,
{
    proof {
        assert(x as int / d as int >= i64::MIN && x as int / d as int <= i64::MAX)
            by (nonlinear_arith)
            requires
                d > 0,
                i64::MIN <= x <= i64::MAX,
        ;
    }
    match x.checked_div_euclid(d) {
        Some(q) => q,
        None => 0,  // unreachable: the quotient always fits
    }
}

/// Euclidean remainder by a positive constant.
fn fmod(x: i64, d: i64) -> (r: i64)
    requires
        d > 0,
    ensures
        r == x as int % d as int,
        0 <= r < d,
{
    match x.checked_rem_euclid(d) {
        Some(r) => r,
        None => 0,  // unreachable: the remainder always fits
    }
}

/// The day number (days since 1970-01-01) of the civil date `y-m-d`,
/// for months `1..=12`.
pub open spec fn days_from_civil_spec(y: int, m: int, d: int) -> int {
    let yy = if m <= 2 {
        y - 1
    } else {
        y
    };
    let era = yy / 400;
    let yoe = yy - era * 400;
    let mp = (m + 9) % 12;
    let doy = (153 * mp + 2) / 5 + d - 1;
    let doe = yoe * 365 + yoe / 4 - yoe / 100 + doy;
    era * 146097 + doe - 719468
}

/// First day (within a 400-year era) of era-year `yoe`.
spec fn year_start(yoe: int) -> int {
    yoe * 365 + yoe / 4 - yoe / 100
}

/// First day (within a March-based year) of month slot `mp`
/// (`0` = March ... `11` = February).
spec fn month_start(mp: int) -> int {
    (153 * mp + 2) / 5
}

/// The civil date of day number `z`: year, month `1..=12`, day `1..=31`.
/// The result is the unique date that [`days_from_civil_spec`] maps back
/// to `z`.
pub fn civil_from_days(z: i64) -> (r: (i64, u8, u8))
    requires
        -MAX_DAY <= z <= MAX_DAY,
    ensures
        1 <= r.1 <= 12,
        1 <= r.2 <= 31,
        days_from_civil_spec(r.0 as int, r.1 as int, r.2 as int) == z,
{
    let shifted = z + 719468;
    let era = fdiv(shifted, 146097);
    proof {
        assert(era * 146097 <= shifted < era * 146097 + 146097) by (nonlinear_arith)
            requires
                era == shifted as int / 146097,
        ;
        assert(-800000000 <= era <= 800000000);
    }
    let doe = shifted - era * 146097;

    // the era-year holding `doe`: the largest with `year_start <= doe`
    let mut yoe: i64 = 0;
    let mut start: i64 = 0;
    let mut next_start: i64 = 365;
    proof {
        assert(year_start(0) == 0);
        assert(year_start(1) == 365);
    }
    while yoe < 399 && doe >= next_start
        invariant
            0 <= yoe <= 399,
            start == year_start(yoe as int),
            next_start == year_start(yoe as int + 1),
            0 <= start <= doe < 146097,
        decreases 399 - yoe,
    {
        yoe = yoe + 1;
        start = next_start;
        let a = fdiv(yoe + 1, 4);
        let b = fdiv(yoe + 1, 100);
        let c = fdiv(yoe, 4);
        let e = fdiv(yoe, 100);
        next_start = start + 365 + a - b - c + e;
    }
    let doy = doe - start;
    proof {
        if yoe < 399 {
            assert(doy <= 365);
        } else {
            assert(year_start(399) == 145731);
            assert(doy <= 365);
        }
    }

    // the month slot holding `doy` within the March-based year
    let mut mp: i64 = 0;
    while mp < 11 && doy >= fdiv(153 * (mp + 1) + 2, 5)
        invariant
            0 <= mp <= 11,
            month_start(mp as int) <= doy,
            0 <= doy <= 365,
        decreases 11 - mp,
    {
        mp = mp + 1;
    }
    let d = doy - fdiv(153 * mp + 2, 5) + 1;
    proof {
        if mp < 11 {
            assert(doy < month_start(mp as int + 1));
            assert(month_start(mp as int + 1) - month_start(mp as int) <= 31);
        } else {
            assert(month_start(11) == 337);
        }
        assert(1 <= d <= 31);
    }

    let m: i64 = if mp < 10 {
        mp + 3
    } else {
        mp - 9
    };
    let y: i64 = if m <= 2 {
        yoe + era * 400 + 1
    } else {
        yoe + era * 400
    };

    proof {
        let yy = (yoe + era * 400) as int;
        assert(yy / 400 == era && yy - (yy / 400) * 400 == yoe) by (nonlinear_arith)
            requires
                yy == yoe + era * 400,
                0 <= yoe <= 399,
        ;
        assert((m + 9) % 12 == mp) by (nonlinear_arith)
            requires
                (0 <= mp < 10 && m == mp + 3) || (10 <= mp <= 11 && m == mp - 9),
        ;
        assert(days_from_civil_spec(y as int, m as int, d as int) == z);
    }

    (y, m as u8, d as u8)
}

proof fn lemma_fdiv_bounds(x: int, d: int)
    requires
        d > 0,
    ensures
        (x / d) * d <= x < (x / d) * d + d,
{
    assert((x / d) * d <= x < (x / d) * d + d) by (nonlinear_arith)
        requires
            d > 0,
    ;
}

/// The local calendar parts of instant `t` shifted by `off` seconds:
/// year, month, day, hour, minute, second.
pub fn timestamp_civil(t: i64, off: i32) -> (r: (i64, u8, u8, u8, u8, u8))
    requires
        i64::MIN + 86400 <= t <= i64::MAX - 86400,
        -86400 < off < 86400,
    ensures
        1 <= r.1 <= 12,
        1 <= r.2 <= 31,
        days_from_civil_spec(r.0 as int, r.1 as int, r.2 as int) == (t + off) / 86400,
        r.3 == ((t + off) % 86400) / 3600,
        r.4 == (((t + off) % 86400) % 3600) / 60,
        r.5 == ((t + off) % 86400) % 60,
        r.3 < 24 && r.4 < 60 && r.5 < 60,
{
    let loc = t + off as i64;
    let z = fdiv(loc, 86400);
    proof {
        lemma_fdiv_bounds(loc as int, 86400);
        assert(-MAX_DAY <= z <= MAX_DAY);
    }
    let sod = fmod(loc, 86400);
    proof {
        lemma_fdiv_bounds(sod as int, 3600);
        lemma_fdiv_bounds((sod as int) % 3600, 60);
    }
    let (y, m, d) = civil_from_days(z);
    let h = fdiv(sod, 3600);
    let rem = fmod(sod, 3600);
    let mi = fdiv(rem, 60);
    let s = fmod(rem, 60);
    (y, m, d, h as u8, mi as u8, s as u8)
}

/// The weekday of day number `z`: `0` = Sunday ... `6` = Saturday.
pub open spec fn weekday_spec(z: int) -> int {
    (z + 4) % 7
}

/// Compute the weekday of day number `z`.
pub fn weekday_of(z: i64) -> (w: u8)
    requires
        -MAX_DAY <= z <= MAX_DAY,
    ensures
        w as int == weekday_spec(z as int),
        w < 7,
{
    fmod(z + 4, 7) as u8
}

/// A year, zero-padded to four digits inside `0..=9999` and plain decimal
/// outside.
pub open spec fn year_str(y: int) -> Seq<char> {
    if 0 <= y < 10 {
        seq!['0', '0', '0'] + dec_str(y)
    } else if 10 <= y < 100 {
        seq!['0', '0'] + dec_str(y)
    } else if 100 <= y < 1000 {
        seq!['0'] + dec_str(y)
    } else {
        int_str(y)
    }
}

fn year4(y: i64) -> (r: String)
    ensures
        r@ == year_str(y as int),
{
    if 0 <= y && y < 10 {
        let r = String::from_str("000").concat(u64_string(y as u64).as_str());
        proof {
            reveal_strlit("000");
            assert(r@ =~= year_str(y as int));
        }
        r
    } else if 10 <= y && y < 100 {
        let r = String::from_str("00").concat(u64_string(y as u64).as_str());
        proof {
            reveal_strlit("00");
            assert(r@ =~= year_str(y as int));
        }
        r
    } else if 100 <= y && y < 1000 {
        let r = String::from_str("0").concat(u64_string(y as u64).as_str());
        proof {
            reveal_strlit("0");
            assert(r@ =~= year_str(y as int));
        }
        r
    } else {
        i64_string(y)
    }
}

/// A number left-padded with a space to two places (for `n < 100`).
pub open spec fn sp2_str(n: int) -> Seq<char> {
    if n < 10 {
        seq![' '] + dec_str(n)
    } else {
        dec_str(n)
    }
}

fn sp2(n: u64) -> (r: String)
    requires
        n < 100,
    ensures
        r@ == sp2_str(n as int),
{
    if n < 10 {
        let r = String::from_str(" ").concat(u64_string(n).as_str());
        proof {
            reveal_strlit(" ");
            assert(r@ =~= sp2_str(n as int));
        }
        r
    } else {
        u64_string(n)
    }
}

/// The `+HHMM` / `-HHMM` rendering of a UTC offset in seconds.
pub open spec fn offset_str(off: int) -> Seq<char> {
    let a = if off < 0 {
        -off
    } else {
        off
    };
    let sign = if off < 0 {
        '-'
    } else {
        '+'
    };
    seq![sign] + pad2_str(a / 3600) + pad2_str((a % 3600) / 60)
}

/// The full timestamp rendering `YYYY-MM-DD HH:MM:SS +ZZZZ` from civil
/// parts.
pub open spec fn time_render(
    y: int,
    m: int,
    d: int,
    h: int,
    mi: int,
    s: int,
    off: int,
) -> Seq<char> {
    year_str(y) + seq!['-'] + pad2_str(m) + seq!['-'] + pad2_str(d) + seq![' '] + pad2_str(h)
        + seq![':'] + pad2_str(mi) + seq![':'] + pad2_str(s) + seq![' '] + offset_str(off)
}

/// Render instant `t` as a full local timestamp, `YYYY-MM-DD HH:MM:SS +ZZZZ`,
/// for the zone `off` seconds east of UTC.
pub fn format_time(t: i64, off: i32) -> (r: String)
    requires
        i64::MIN + 86400 <= t <= i64::MAX - 86400,
        -86400 < off < 86400,
    ensures
        exists|y: int, m: int, d: int|
            {
                &&& 1 <= m <= 12
                &&& 1 <= d <= 31
                &&& #[trigger] days_from_civil_spec(y, m, d) == (t + off) / 86400
                &&& r@ == time_render(
                    y,
                    m,
                    d,
                    ((t + off) % 86400) / 3600,
                    (((t + off) % 86400) % 3600) / 60,
                    ((t + off) % 86400) % 60,
                    off as int,
                )
            },
{
    let (y, m, d, h, mi, s) = timestamp_civil(t, off);
    let mut out = year4(y);
    out.append("-");
    out.append(pad2(m as u64).as_str());
    out.append("-");
    out.append(pad2(d as u64).as_str());
    out.append(" ");
    out.append(pad2(h as u64).as_str());
    out.append(":");
    out.append(pad2(mi as u64).as_str());
    out.append(":");
    out.append(pad2(s as u64).as_str());
    out.append(" ");
    let a: i64 = if off < 0 {
        -(off as i64)
    } else {
        off as i64
    };
    proof {
        lemma_fdiv_bounds(a as int, 3600);
        lemma_fdiv_bounds((a as int) % 3600, 60);
    }
    let sign: &str = if off < 0 {
        "-"
    } else {
        "+"
    };
    out.append(sign);
    out.append(pad2(fdiv(a, 3600) as u64).as_str());
    out.append(pad2(fdiv(fmod(a, 3600), 60) as u64).as_str());
    proof {
        reveal_strlit("-");
        reveal_strlit("+");
        reveal_strlit(" ");
        reveal_strlit(":");
        assert(seq!['-'] =~= "-"@);
        assert(out@ =~= time_render(
            y as int,
            m as int,
            d as int,
            h as int,
            mi as int,
            s as int,
            off as int,
        ));
        assert(days_from_civil_spec(y as int, m as int, d as int) == (t + off) / 86400);
    }
    out
}

/// The weekday abbreviation, `0` = Sunday.
pub open spec fn weekday_abbr(w: int) -> Seq<char> {
    if w == 0 {
        "Sun"@
    } else if w == 1 {
        "Mon"@
    } else if w == 2 {
        "Tue"@
    } else if w == 3 {
        "Wed"@
    } else if w == 4 {
        "Thu"@
    } else if w == 5 {
        "Fri"@
    } else {
        "Sat"@
    }
}

/// The month abbreviation, `1` = January.
pub open spec fn month_abbr(m: int) -> Seq<char> {
    if m == 1 {
        "Jan"@
    } else if m == 2 {
        "Feb"@
    } else if m == 3 {
        "Mar"@
    } else if m == 4 {
        "Apr"@
    } else if m == 5 {
        "May"@
    } else if m == 6 {
        "Jun"@
    } else if m == 7 {
        "Jul"@
    } else if m == 8 {
        "Aug"@
    } else if m == 9 {
        "Sep"@
    } else if m == 10 {
        "Oct"@
    } else if m == 11 {
        "Nov"@
    } else {
        "Dec"@
    }
}

fn weekday_name(w: u8) -> (r: &'static str)
    requires
        w < 7,
    ensures
        r@ == weekday_abbr(w as int),
{
    match w {
        0 => "Sun",
        1 => "Mon",
        2 => "Tue",
        3 => "Wed",
        4 => "Thu",
        5 => "Fri",
        _ => "Sat",
    }
}

fn month_name(m: u8) -> (r: &'static str)
    requires
        1 <= m <= 12,
    ensures
        r@ == month_abbr(m as int),
{
    match m {
        1 => "Jan",
        2 => "Feb",
        3 => "Mar",
        4 => "Apr",
        5 => "May",
        6 => "Jun",
        7 => "Jul",
        8 => "Aug",
        9 => "Sep",
        10 => "Oct",
        11 => "Nov",
        _ => "Dec",
    }
}

/// The human-friendly rendering `Ddd Mmm dd hh:MM:SS` from civil parts.
pub open spec fn human_render(w: int, m: int, d: int, h: int, mi: int, s: int) -> Seq<char> {
    weekday_abbr(w) + seq![' '] + month_abbr(m) + seq![' '] + sp2_str(d) + seq![' '] + sp2_str(h)
        + seq![':'] + pad2_str(mi) + seq![':'] + pad2_str(s)
}

/// Render instant `t` for people: weekday, month, day and clock time, in the
/// zone `off` seconds east of UTC.
pub fn format_human_time(t: i64, off: i32) -> (r: String)
    requires
        i64::MIN + 86400 <= t <= i64::MAX - 86400,
        -86400 < off < 86400,
    ensures
        exists|y: int, m: int, d: int|
            {
                &&& 1 <= m <= 12
                &&& 1 <= d <= 31
                &&& #[trigger] days_from_civil_spec(y, m, d) == (t + off) / 86400
                &&& r@ == human_render(
                    weekday_spec((t + off) / 86400),
                    m,
                    d,
                    ((t + off) % 86400) / 3600,
                    (((t + off) % 86400) % 3600) / 60,
                    ((t + off) % 86400) % 60,
                )
            },
{
    let loc = t + off as i64;
    let z = fdiv(loc, 86400);
    proof {
        lemma_fdiv_bounds(loc as int, 86400);
        assert(-MAX_DAY <= z <= MAX_DAY);
    }
    let w = weekday_of(z);
    let (y, m, d, h, mi, s) = timestamp_civil(t, off);
    let mut out = String::from_str(weekday_name(w));
    out.append(" ");
    out.append(month_name(m));
    out.append(" ");
    out.append(sp2(d as u64).as_str());
    out.append(" ");
    out.append(sp2(h as u64).as_str());
    out.append(":");
    out.append(pad2(mi as u64).as_str());
    out.append(":");
    out.append(pad2(s as u64).as_str());
    proof {
        reveal_strlit(" ");
        reveal_strlit(":");
        assert(out@ =~= human_render(
            w as int,
            m as int,
            d as int,
            h as int,
            mi as int,
            s as int,
        ));
        assert(days_from_civil_spec(y as int, m as int, d as int) == (t + off) / 86400);
    }
    out
}

} // verus!
