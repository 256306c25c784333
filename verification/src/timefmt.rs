//! UTC civil time on plain integers: days since the epoch for a Gregorian
//! date, the inverse, the upstream request timestamp format
//! `YYYYMMDDHHMM`, and the upstream interval format `YYYY-MM-DDTHH:MMZ`.

use vstd::prelude::*;

use crate::calendar::days_in_month;
use crate::calendar::is_leap;
use crate::calendar::spec_days_in_month;
use crate::calendar::spec_is_leap;
use crate::calendar::spec_valid_civil;

verus! {

/// Days in year `y`.
pub open spec fn spec_days_in_year(y: int) -> int {
    if spec_is_leap(y) {
        366
    } else {
        365
    }
}

/// Days from 1970-01-01 to the first day of year `y` (for `y >= 1970`).
pub open spec fn spec_days_to_year(y: int) -> int
    decreases y,
{
    if y <= 1970 {
        0
    } else {
        spec_days_to_year(y - 1) + spec_days_in_year(y - 1)
    }
}

/// Days from the first of January of `y` to the first day of month `m`.
pub open spec fn spec_days_to_month(y: int, m: int) -> int
    decreases m,
{
    if m <= 1 {
        0
    } else {
        spec_days_to_month(y, m - 1) + spec_days_in_month(y, m - 1)
    }
}

/// Days from 1970-01-01 to the civil day `(y, m, d)`.
pub open spec fn spec_days_from_civil(y: int, m: int, d: int) -> int {
    spec_days_to_year(y) + spec_days_to_month(y, m) + d - 1
}

/// Days from the epoch to the first day of year 10000: every in-range
/// timestamp's day count lies below it.
pub const DAYS_10000: u32 = 2_932_897;

/// Milliseconds from the epoch to the first instant of year 10000.
pub const MS_10000: i64 = 253_402_300_800_000;

/// How a division by a positive constant steps when its argument steps by
/// one.
proof fn lemma_div_step(a: int, d: int)
    requires
        d > 0,
    ensures
        a / d - (a - 1) / d == (if a % d == 0 {
            1int
        } else {
            0int
        }),
{
    vstd::arithmetic::div_mod::lemma_fundamental_div_mod(a, d);
    vstd::arithmetic::div_mod::lemma_fundamental_div_mod(a - 1, d);
    vstd::arithmetic::div_mod::lemma_mod_bound(a, d);
    vstd::arithmetic::div_mod::lemma_mod_bound(a - 1, d);
    let q = a / d;
    let r = a % d;
    let q2 = (a - 1) / d;
    let r2 = (a - 1) % d;
    if r == 0 {
        assert(d * q2 + r2 == d * q - 1);
        assert(d * (q2 - (q - 1)) == r + d - 1 - r2) by (nonlinear_arith)
            requires
                d * q2 + r2 == d * q - 1 && r == 0,
        ;
        if q2 >= q {
            assert(d * (q2 - (q - 1)) >= d) by (nonlinear_arith)
                requires
                    d > 0 && q2 - (q - 1) >= 1,
            ;
        }
        if q2 < q - 1 {
            assert(d * (q2 - (q - 1)) <= 0 - d) by (nonlinear_arith)
                requires
                    d > 0 && q2 - (q - 1) <= -1,
            ;
        }
    } else {
        assert(d * q2 + r2 == d * q + r - 1);
        assert(d * (q2 - q) == r - 1 - r2) by (nonlinear_arith)
            requires
                d * q2 + r2 == d * q + r - 1,
        ;
        if q2 > q {
            assert(d * (q2 - q) >= d) by (nonlinear_arith)
                requires
                    d > 0 && q2 - q >= 1,
            ;
        }
        if q2 < q {
            assert(d * (q2 - q) <= 0 - d) by (nonlinear_arith)
                requires
                    d > 0 && q2 - q <= -1,
            ;
        }
    }
}

/// A multiple of a hundred is a multiple of four; a multiple of four
/// hundred is a multiple of a hundred.
proof fn lemma_mod_zero_chain(a: int)
    ensures
        a % 100 == 0 ==> a % 4 == 0,
        a % 400 == 0 ==> a % 100 == 0,
{
    if a % 100 == 0 {
        vstd::arithmetic::div_mod::lemma_fundamental_div_mod(a, 100);
        let q = a / 100;
        vstd::arithmetic::div_mod::lemma_mod_multiples_basic(25 * q, 4);
        assert(a == (25 * q) * 4);
    }
    if a % 400 == 0 {
        vstd::arithmetic::div_mod::lemma_fundamental_div_mod(a, 400);
        let q = a / 400;
        vstd::arithmetic::div_mod::lemma_mod_multiples_basic(4 * q, 100);
        assert(a == (4 * q) * 100);
    }
}

/// Closed form of the day count to a year start: 365 days a year plus the
/// Gregorian leap days since the epoch.
pub proof fn lemma_days_to_year_closed(y: int)
    requires
        1970 <= y,
    ensures
        spec_days_to_year(y) == 365 * (y - 1970) + ((y - 1) / 4 - 492) - ((y - 1) / 100 - 19) + ((y
            - 1) / 400 - 4),
    decreases y,
{
    if y == 1970 {
        assert(1969int / 4 == 492 && 1969int / 100 == 19 && 1969int / 400 == 4);
    } else {
        lemma_days_to_year_closed(y - 1);
        lemma_div_step(y - 1, 4);
        lemma_div_step(y - 1, 100);
        lemma_div_step(y - 1, 400);
        lemma_mod_zero_chain(y - 1);
    }
}

/// Year starts are strictly increasing by at least a year's worth of days.
pub proof fn lemma_days_to_year_mono(y1: int, y2: int)
    requires
        1970 <= y1 < y2,
    ensures
        spec_days_to_year(y1) + 365 * (y2 - y1) <= spec_days_to_year(y2),
    decreases y2 - y1,
{
    if y1 + 1 < y2 {
        lemma_days_to_year_mono(y1 + 1, y2);
    }
}

/// A year holds exactly its twelve months.
pub proof fn lemma_year_is_months(y: int)
    ensures
        spec_days_to_month(y, 13) == spec_days_in_year(y),
{
    reveal_with_fuel(spec_days_to_month, 14);
}

/// Month starts within a year grow strictly.
pub proof fn lemma_days_to_month_mono(y: int, m1: int, m2: int)
    requires
        1 <= m1 < m2 <= 13,
    ensures
        spec_days_to_month(y, m1) + (m2 - m1) * 28 <= spec_days_to_month(y, m2),
    decreases m2 - m1,
{
    if m1 + 1 < m2 {
        lemma_days_to_month_mono(y, m1 + 1, m2);
    }
}

/// Days in year `y`.
pub fn days_in_year(y: i64) -> (r: u32)
    ensures
        r as int == spec_days_in_year(y as int),
{
    if is_leap(y) {
        366
    } else {
        365
    }
}

/// Days from 1970-01-01 to the civil day `(y, m, d)`.
pub fn days_from_civil(y: i64, m: u8, d: u8) -> (r: u32)
    requires
        1970 <= y <= 9999,
        1 <= m <= 12,
        1 <= d <= spec_days_in_month(y as int, m as int),
    ensures
        r as int == spec_days_from_civil(y as int, m as int, d as int),
        r < DAYS_10000,
{
    let mut acc: u32 = 0;
    let mut yy: i64 = 1970;
    while yy < y
        invariant
            1970 <= yy <= y <= 9999,
            acc as int == spec_days_to_year(yy as int),
            acc <= 366 * (yy - 1970),
        decreases y - yy,
    {
        acc = acc + days_in_year(yy);
        yy = yy + 1;
    }
    let mut mm: u8 = 1;
    let ghost y_days = acc as int;
    while mm < m
        invariant
            1 <= mm <= m <= 12,
            1970 <= y <= 9999,
            acc as int == y_days + spec_days_to_month(y as int, mm as int),
            y_days == spec_days_to_year(y as int),
            y_days <= 366 * (y - 1970),
            spec_days_to_month(y as int, mm as int) <= 31 * (mm - 1),
        decreases m - mm,
    {
        acc = acc + days_in_month(y, mm) as u32;
        mm = mm + 1;
    }
    let r = acc + (d as u32) - 1;
    proof {
        if y < 9999 {
            lemma_days_to_year_mono(y as int, 10000);
        } else {
            lemma_days_to_year_mono(9999, 10000);
        }
        lemma_year_is_months(y as int);
        if m < 13 {
            lemma_days_to_month_mono(y as int, m as int, 13);
        }
        lemma_days_to_year_closed(10000);
        assert(spec_days_to_year(10000) == DAYS_10000);
    }
    r
}

/// The civil day `z` days after 1970-01-01.
pub fn civil_from_days(z: u32) -> (r: (i64, u8, u8))
    requires
        z < DAYS_10000,
    ensures
        spec_valid_civil((r.0 as int, r.1 as int, r.2 as int)),
        1970 <= r.0 <= 9999,
        spec_days_from_civil(r.0 as int, r.1 as int, r.2 as int) == z as int,
{
    proof {
        lemma_days_to_year_closed(10000);
        assert(spec_days_to_year(10000) == DAYS_10000);
    }
    let mut acc: u32 = 0;
    let mut y: i64 = 1970;
    while acc + days_in_year(y) <= z
        invariant
            1970 <= y <= 9999,
            acc as int == spec_days_to_year(y as int),
            acc <= z < DAYS_10000,
            spec_days_to_year(10000) == DAYS_10000,
        decreases z - acc,
    {
        proof {
            if y + 1 > 9999 {
                assert(spec_days_to_year((y + 1) as int) == DAYS_10000);
            } else {
                lemma_days_to_year_mono((y + 1) as int, 10000);
            }
        }
        acc = acc + days_in_year(y);
        y = y + 1;
    }
    let rem_y: u32 = z - acc;
    proof {
        lemma_year_is_months(y as int);
    }
    let mut m: u8 = 1;
    let mut acc2: u32 = 0;
    while acc2 + (days_in_month(y, m) as u32) <= rem_y
        invariant
            1 <= m <= 12,
            1970 <= y <= 9999,
            acc2 as int == spec_days_to_month(y as int, m as int),
            acc2 <= rem_y,
            rem_y < DAYS_10000,
            (rem_y as int) < spec_days_to_month(y as int, 13),
        decreases rem_y - acc2,
    {
        proof {
            if m + 1 < 13 {
                lemma_days_to_month_mono(y as int, (m + 1) as int, 13);
            }
        }
        acc2 = acc2 + days_in_month(y, m) as u32;
        m = m + 1;
    }
    let d: u8 = ((rem_y - acc2) + 1) as u8;
    (y, m, d)
}

/// A decimal digit byte.
pub open spec fn spec_is_digit(b: u8) -> bool {
    48 <= b <= 57
}

/// Every byte is a decimal digit.
pub open spec fn spec_all_digits(s: Seq<u8>) -> bool {
    forall|i: int| 0 <= i < s.len() ==> spec_is_digit(#[trigger] s[i])
}

/// The value the decimal digits spell.
pub open spec fn spec_dec_val(s: Seq<u8>) -> int
    decreases s.len(),
{
    if s.len() == 0 {
        0
    } else {
        spec_dec_val(s.drop_last()) * 10 + (s.last() - 48)
    }
}


/// The digits of a decimal text spell a nonnegative value.
pub proof fn lemma_dec_val_nonneg_pub(s: Seq<u8>)
    requires
        spec_all_digits(s),
    ensures
        spec_dec_val(s) >= 0,
    decreases s.len(),
{
    if s.len() > 0 {
        assert(forall|k: int| 0 <= k < s.drop_last().len() ==> s.drop_last()[k] == s[k]);
        lemma_dec_val_nonneg_pub(s.drop_last());
    }
}

/// A decimal text's value is at least the value of any of its prefixes.
pub proof fn lemma_dec_val_prefix_pub(s: Seq<u8>, i: int)
    requires
        0 <= i <= s.len(),
        spec_all_digits(s),
    ensures
        spec_dec_val(s) >= spec_dec_val(s.take(i)),
    decreases s.len() - i,
{
    if i < s.len() {
        lemma_dec_val_prefix_pub(s, i + 1);
        assert(forall|k: int| 0 <= k < i + 1 ==> s.take(i + 1)[k] == s[k]);
        assert(spec_all_digits(s.take(i + 1)));
        lemma_dec_val_nonneg_pub(s.take(i + 1));
        assert(s.take(i + 1).drop_last() =~= s.take(i));
        lemma_dec_val_nonneg_pub(s.take(i));
    } else {
        assert(s.take(i) =~= s);
    }
}

/// The two decimal digit bytes of `n`.
pub open spec fn spec_dec2(n: int) -> Seq<u8> {
    seq![(48 + (n / 10) % 10) as u8, (48 + n % 10) as u8]
}

/// The four decimal digit bytes of `n`.
pub open spec fn spec_dec4(n: int) -> Seq<u8> {
    seq![
        (48 + (n / 1000) % 10) as u8,
        (48 + (n / 100) % 10) as u8,
        (48 + (n / 10) % 10) as u8,
        (48 + n % 10) as u8,
    ]
}

/// The upstream request timestamp format: `YYYYMMDDHHMM`.
pub open spec fn spec_fmt_ymdhm(y: int, mo: int, d: int, h: int, mi: int) -> Seq<u8> {
    spec_dec4(y) + spec_dec2(mo) + spec_dec2(d) + spec_dec2(h) + spec_dec2(mi)
}

/// Append the two decimal digits of `n` to `v`.
fn push_dec2(v: &mut Vec<u8>, n: u32)
    requires
        n < 100,
    ensures
        final(v)@ == old(v)@ + spec_dec2(n as int),
{
    let ghost v0 = v@;
    v.push((48 + n / 10) as u8);
    v.push((48 + n % 10) as u8);
    proof {
        assert(v@ =~= v0 + spec_dec2(n as int));
    }
}

/// Append the four decimal digits of `n` to `v`.
fn push_dec4(v: &mut Vec<u8>, n: u32)
    requires
        n < 10000,
    ensures
        final(v)@ == old(v)@ + spec_dec4(n as int),
{
    let ghost v0 = v@;
    v.push((48 + n / 1000) as u8);
    v.push((48 + (n / 100) % 10) as u8);
    v.push((48 + (n / 10) % 10) as u8);
    v.push((48 + n % 10) as u8);
    proof {
        assert(v@ =~= v0 + spec_dec4(n as int));
    }
}

/// Relies on `String::from_utf8`: the string holding exactly the given
/// bytes, which exist (the caller hands over ASCII only), and whose
/// `as_bytes` returns them unchanged.
#[verifier::external_body]
fn ascii_string(v: Vec<u8>) -> (r: String)
    requires
        forall|i: int| 0 <= i < v@.len() ==> #[trigger] v@[i] < 128,
    ensures
        vstd::utf8::encode_utf8(r@) == v@,
{
    String::from_utf8(v).unwrap_or_default()
}

/// The instant `t_ms` as the upstream request timestamp `YYYYMMDDHHMM`
/// (UTC): the unique in-range civil day whose day count matches, followed
/// by the hour and minute of the day's remainder.
pub fn to_time_str(t_ms: i64) -> (r: String)
    requires
        0 <= t_ms < MS_10000,
    ensures
        exists|y: int, mo: int, d: int|
            {
                &&& spec_valid_civil((y, mo, d))
                &&& 1970 <= y <= 9999
                &&& spec_days_from_civil(y, mo, d) == t_ms as int / 86_400_000
                &&& vstd::utf8::encode_utf8(r@) == #[trigger] spec_fmt_ymdhm(
                    y,
                    mo,
                    d,
                    t_ms as int % 86_400_000 / 3_600_000,
                    t_ms as int % 86_400_000 % 3_600_000 / 60_000,
                )
            },
{
    let z: u32 = (t_ms / 86_400_000) as u32;
    let rem: u32 = (t_ms % 86_400_000) as u32;
    let (y, mo, d) = civil_from_days(z);
    let h: u32 = rem / 3_600_000;
    let mi: u32 = (rem % 3_600_000) / 60_000;
    let mut v: Vec<u8> = Vec::new();
    push_dec4(&mut v, y as u32);
    push_dec2(&mut v, mo as u32);
    push_dec2(&mut v, d as u32);
    push_dec2(&mut v, h);
    push_dec2(&mut v, mi);
    proof {
        assert(v@ =~= spec_fmt_ymdhm(
            y as int,
            mo as int,
            d as int,
            t_ms as int % 86_400_000 / 3_600_000,
            t_ms as int % 86_400_000 % 3_600_000 / 60_000,
        ));
        assert(forall|i: int| 0 <= i < v@.len() ==> #[trigger] v@[i] < 128);
    }
    ascii_string(v)
}

/// Whether `s` is a well-formed upstream interval timestamp
/// `YYYY-MM-DDTHH:MMZ` naming a supported instant.
pub open spec fn spec_iso_ok(s: Seq<u8>) -> bool {
    &&& s.len() == 17
    &&& spec_all_digits(s.subrange(0, 4))
    &&& s[4] == 45
    &&& spec_all_digits(s.subrange(5, 7))
    &&& s[7] == 45
    &&& spec_all_digits(s.subrange(8, 10))
    &&& s[10] == 84
    &&& spec_all_digits(s.subrange(11, 13))
    &&& s[13] == 58
    &&& spec_all_digits(s.subrange(14, 16))
    &&& s[16] == 90
    &&& 1970 <= spec_dec_val(s.subrange(0, 4)) <= 9999
    &&& 1 <= spec_dec_val(s.subrange(5, 7)) <= 12
    &&& 1 <= spec_dec_val(s.subrange(8, 10)) <= spec_days_in_month(
        spec_dec_val(s.subrange(0, 4)),
        spec_dec_val(s.subrange(5, 7)),
    )
    &&& spec_dec_val(s.subrange(11, 13)) <= 23
    &&& spec_dec_val(s.subrange(14, 16)) <= 59
}

/// The UTC instant a well-formed interval timestamp names.
pub open spec fn spec_iso_ms(s: Seq<u8>) -> int {
    spec_days_from_civil(
        spec_dec_val(s.subrange(0, 4)),
        spec_dec_val(s.subrange(5, 7)),
        spec_dec_val(s.subrange(8, 10)),
    ) * 86_400_000 + spec_dec_val(s.subrange(11, 13)) * 3_600_000 + spec_dec_val(
        s.subrange(14, 16),
    ) * 60_000
}

/// Read the two digits at `i`, `i + 1`.
fn read_dec2(s: &[u8], i: usize) -> (r: Option<u32>)
    requires
        i + 2 <= s@.len(),
    ensures
        r is Some <==> spec_all_digits(s@.subrange(i as int, i as int + 2)),
        r matches Some(v) ==> v == spec_dec_val(s@.subrange(i as int, i as int + 2)) && v <= 99,
{
    let b0 = s[i];
    let b1 = s[i + 1];
    let ghost sub = s@.subrange(i as int, i as int + 2);
    proof {
        reveal_with_fuel(spec_dec_val, 4);
        assert(sub.len() == 2);
        assert(sub[0] == s@[i as int]);
        assert(sub[1] == s@[i as int + 1]);
        assert(sub.drop_last() =~= s@.subrange(i as int, i as int + 1));
        assert(sub.drop_last().drop_last() =~= Seq::<u8>::empty());
        assert(sub.drop_last()[0] == s@[i as int]);
    }
    if 48 <= b0 && b0 <= 57 && 48 <= b1 && b1 <= 57 {
        Some((b0 - 48) as u32 * 10 + (b1 - 48) as u32)
    } else {
        None
    }
}

/// Read the four digits at `i` .. `i + 3`.
#[verifier::rlimit(50)]
fn read_dec4(s: &[u8], i: usize) -> (r: Option<u32>)
    requires
        i + 4 <= s@.len(),
    ensures
        r is Some <==> spec_all_digits(s@.subrange(i as int, i as int + 4)),
        r matches Some(v) ==> v == spec_dec_val(s@.subrange(i as int, i as int + 4)) && v <= 9999,
{
    let b0 = s[i];
    let b1 = s[i + 1];
    let b2 = s[i + 2];
    let b3 = s[i + 3];
    let ghost sub = s@.subrange(i as int, i as int + 4);
    proof {
        reveal_with_fuel(spec_dec_val, 6);
        assert(sub.len() == 4);
        assert(forall|k: int| 0 <= k < 4 ==> #[trigger] sub[k] == s@[i as int + k]);
        assert(sub.drop_last() =~= s@.subrange(i as int, i as int + 3));
        assert(sub.drop_last().drop_last() =~= s@.subrange(i as int, i as int + 2));
        assert(sub.drop_last().drop_last().drop_last() =~= s@.subrange(i as int, i as int + 1));
        assert(sub.drop_last().drop_last().drop_last().drop_last() =~= Seq::<u8>::empty());
        assert(sub.drop_last()[0] == s@[i as int]);
        assert(sub.drop_last()[1] == s@[i as int + 1]);
        assert(sub.drop_last()[2] == s@[i as int + 2]);
        assert(sub.drop_last().drop_last()[0] == s@[i as int]);
        assert(sub.drop_last().drop_last()[1] == s@[i as int + 1]);
        assert(sub.drop_last().drop_last().drop_last()[0] == s@[i as int]);
    }
    if 48 <= b0 && b0 <= 57 && 48 <= b1 && b1 <= 57 && 48 <= b2 && b2 <= 57 && 48 <= b3 && b3
        <= 57 {
        proof {
            assert(b0 == sub[0] && b1 == sub[1] && b2 == sub[2] && b3 == sub[3]);
            assert(spec_is_digit(sub[0]));
            assert(spec_all_digits(sub));
        }
        Some(
            ((b0 - 48) as u32) * 1000 + ((b1 - 48) as u32) * 100 + ((b2 - 48) as u32) * 10 + (b3
                - 48) as u32,
        )
    } else {
        proof {
            assert(!spec_is_digit(sub[0]) || !spec_is_digit(sub[1]) || !spec_is_digit(sub[2])
                || !spec_is_digit(sub[3]));
            assert(!spec_all_digits(sub));
        }
        None
    }
}

/// Parse an upstream interval timestamp `YYYY-MM-DDTHH:MMZ` into its UTC
/// instant; `None` exactly on malformed or out-of-range input.
pub fn parse_iso_minute(s: &[u8]) -> (r: Option<i64>)
    ensures
        r is Some <==> spec_iso_ok(s@),
        r matches Some(v) ==> v == spec_iso_ms(s@) && 0 <= v < MS_10000,
{
    if s.len() != 17 {
        return None;
    }
    if !(s[4] == 45 && s[7] == 45 && s[10] == 84 && s[13] == 58 && s[16] == 90) {
        return None;
    }
    let y = match read_dec4(s, 0) {
        Some(v) => v,
        None => {
            return None;
        },
    };
    let mo = match read_dec2(s, 5) {
        Some(v) => v,
        None => {
            return None;
        },
    };
    let d = match read_dec2(s, 8) {
        Some(v) => v,
        None => {
            return None;
        },
    };
    let h = match read_dec2(s, 11) {
        Some(v) => v,
        None => {
            return None;
        },
    };
    let mi = match read_dec2(s, 14) {
        Some(v) => v,
        None => {
            return None;
        },
    };
    if !(1970 <= y && y <= 9999) {
        return None;
    }
    if !(1 <= mo && mo <= 12) {
        return None;
    }
    if !(1 <= d && d as u8 <= days_in_month(y as i64, mo as u8)) {
        return None;
    }
    if !(h <= 23) {
        return None;
    }
    if !(mi <= 59) {
        return None;
    }
    let days = days_from_civil(y as i64, mo as u8, d as u8);
    Some((days as i64) * 86_400_000 + (h as i64) * 3_600_000 + (mi as i64) * 60_000)
}

} // verus!
