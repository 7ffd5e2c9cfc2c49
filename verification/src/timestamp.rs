//! RFC 3339 timestamps at whole-second precision: a Unix time rendered as
//! `YYYY-MM-DDThh:mm:ssZ` by proleptic Gregorian reckoning from the epoch.

use vstd::prelude::*;
use crate::text::{all_ascii, ascii_chars, ascii_string, dec_digits, lemma_dec_digits_ascii};

verus! {

/// A leap year: divisible by four, except centuries off the quadricentennial.
pub open spec fn is_leap(y: int) -> bool {
    y % 4 == 0 && (y % 100 != 0 || y % 400 == 0)
}

/// The days in a year.
pub open spec fn days_in_year(y: int) -> int {
    if is_leap(y) {
        366
    } else {
        365
    }
}

/// The days in a month.
pub open spec fn days_in_month(y: int, m: int) -> int {
    if m == 2 {
        if is_leap(y) {
            29
        } else {
            28
        }
    } else if m == 4 || m == 6 || m == 9 || m == 11 {
        30
    } else {
        31
    }
}

/// The year holding the day that lies `days` whole days after the start
/// of year `from`, with the remaining day-of-year offset.
pub open spec fn year_of(days: int, from: int) -> (int, int)
    decreases days,
{
    if days < 0 || days < days_in_year(from) {
        (from, days)
    } else {
        year_of(days - days_in_year(from), from + 1)
    }
}

/// The month holding the day that lies `doy` whole days after the start
/// of month `from` of year `y`, with the remaining day offset.
pub open spec fn month_of(y: int, doy: int, from: int) -> (int, int)
    decreases 13 - from,
{
    if from >= 12 || doy < days_in_month(y, from) {
        (from, doy)
    } else {
        month_of(y, doy - days_in_month(y, from), from + 1)
    }
}

/// A number as decimal digits, padded with `0` to at least two places.
pub open spec fn pad2(n: int) -> Seq<u8> {
    if 0 <= n < 10 {
        seq![0x30u8] + dec_digits(n as nat)
    } else {
        dec_digits(n as nat)
    }
}

/// The RFC 3339 rendering of a Unix time, at whole-second precision:
/// `YYYY-MM-DDThh:mm:ssZ`.
pub open spec fn rfc3339_bytes(secs: int) -> Seq<u8> {
    let days = secs / 86400;
    let rem = secs % 86400;
    let (y, doy) = year_of(days, 1970);
    let (m, d0) = month_of(y, doy, 1);
    dec_digits(y as nat) + seq![0x2du8] + pad2(m) + seq![0x2du8] + pad2(d0 + 1) + seq![0x54u8]
        + pad2(rem / 3600) + seq![0x3au8] + pad2((rem % 3600) / 60) + seq![0x3au8] + pad2(rem % 60)
        + seq![0x5au8]
}

/// The first second the rendering declines: far beyond any clock
/// reading, early in the year 9993.
pub open spec fn max_rfc3339_secs() -> int {
    253202544000
}

/// The byte sequence is the RFC 3339 rendering of some coverable Unix
/// time.
pub open spec fn is_rfc3339_render(b: Seq<u8>) -> bool {
    exists|secs: u64| secs < max_rfc3339_secs() && b == #[trigger] rfc3339_bytes(secs as int)
}

fn is_leap_exec(y: u64) -> (r: bool)
    ensures
        r == is_leap(y as int),
{
    y % 4 == 0 && (y % 100 != 0 || y % 400 == 0)
}

fn days_in_year_exec(y: u64) -> (r: u64)
    ensures
        r == days_in_year(y as int),
{
    if is_leap_exec(y) {
        366
    } else {
        365
    }
}

fn days_in_month_exec(y: u64, m: u64) -> (r: u64)
    ensures
        r == days_in_month(y as int, m as int),
{
    if m == 2 {
        if is_leap_exec(y) {
            29
        } else {
            28
        }
    } else if m == 4 || m == 6 || m == 9 || m == 11 {
        30
    } else {
        31
    }
}

fn push_pad2(out: &mut Vec<u8>, n: u64)
    requires
        n < 100,
    ensures
        final(out)@ == old(out)@ + pad2(n as int),
        pad2(n as int).len() == 2,
{
    if n < 10 {
        out.push(0x30);
        out.push((n as u8) + 0x30);
        proof {
            assert(dec_digits(n as nat) =~= seq![(n + 0x30) as u8]);
            assert(final(out)@ =~= old(out)@ + pad2(n as int));
        }
    } else {
        out.push((n / 10) as u8 + 0x30);
        out.push((n % 10) as u8 + 0x30);
        proof {
            assert(dec_digits((n / 10) as nat) =~= seq![(n / 10 + 0x30) as u8]);
            assert(dec_digits(n as nat) =~= seq![(n / 10 + 0x30) as u8, (n % 10 + 0x30) as u8]);
            assert(final(out)@ =~= old(out)@ + pad2(n as int));
        }
    }
}

proof fn lemma_dec_digits_len4(n: nat)
    requires
        1000 <= n < 10000,
    ensures
        dec_digits(n).len() == 4,
{
    assert(dec_digits(n).len() == dec_digits((n / 10) as nat).len() + 1);
    assert(dec_digits((n / 10) as nat).len() == dec_digits((n / 100) as nat).len() + 1);
    assert(dec_digits((n / 100) as nat).len() == dec_digits((n / 1000) as nat).len() + 1);
    assert(dec_digits((n / 1000) as nat).len() == 1);
}

/// Renders a Unix time as an RFC 3339 timestamp, `YYYY-MM-DDThh:mm:ssZ`:
/// 20 characters, ending with `Z`, with no fraction. Times past the year
/// 9999 cannot be rendered.
pub fn rfc3339_utc(secs: u64) -> (r: Option<String>)
    ensures
        secs < max_rfc3339_secs() <==> r is Some,
        r matches Some(ts) ==> ts@ == ascii_chars(rfc3339_bytes(secs as int)) && ts@.len() == 20
            && ts@[19] == 'Z' && vstd::utf8::is_ascii_chars(ts@) && vstd::utf8::encode_utf8(ts@)
            == rfc3339_bytes(secs as int) && forall|i: int| 0 <= i < ts@.len() ==> ts@[i] != '.',
{
    if secs >= 253202544000 {
        return None;
    }
    let days: u64 = secs / 86400;
    let rem: u64 = secs % 86400;
    // Find the year by stepping from 1970.
    let mut y: u64 = 1970;
    let mut doy: u64 = days;
    while doy >= days_in_year_exec(y)
        invariant
            1970 <= y,
            year_of(days as int, 1970) == year_of(doy as int, y as int),
            doy <= days < 2930585,
            y <= 1970 + (days - doy) / 365,
        decreases doy,
    {
        let len = days_in_year_exec(y);
        proof {
            assert(year_of(doy as int, y as int) == year_of(
                doy - days_in_year(y as int),
                y as int + 1,
            ));
            assert((days - (doy - len)) / 365 >= (days - doy) / 365 + 1) by (nonlinear_arith)
                requires
                    365 <= len,
                    doy >= len,
                    days >= doy,
            ;
        }
        doy = doy - len;
        y = y + 1;
    }
    proof {
        assert(year_of(days as int, 1970) == (y as int, doy as int));
        assert(doy < days_in_year(y as int));
        assert((days - doy) / 365 <= days / 365) by (nonlinear_arith)
            requires
                0 <= doy <= days,
        ;
        assert(y <= 1970 + days / 365);
        assert(y < 10000) by (nonlinear_arith)
            requires
                y <= 1970 + days / 365,
                days < 2930585,
        ;
    }
    // Find the month by stepping from January.
    let mut m: u64 = 1;
    let mut d0: u64 = doy;
    while m < 12 && d0 >= days_in_month_exec(y, m)
        invariant
            1 <= m <= 12,
            month_of(y as int, doy as int, 1) == month_of(y as int, d0 as int, m as int),
            d0 <= doy < 366,
            d0 + 28 * (m - 1) <= doy,
        decreases 12 - m,
    {
        let len = days_in_month_exec(y, m);
        proof {
            assert(month_of(y as int, d0 as int, m as int) == month_of(
                y as int,
                d0 - days_in_month(y as int, m as int),
                m as int + 1,
            ));
        }
        d0 = d0 - len;
        m = m + 1;
    }
    proof {
        assert(month_of(y as int, doy as int, 1) == (m as int, d0 as int));
    }
    let mut out: Vec<u8> = Vec::new();
    let ghost gy = y;
    proof {
        lemma_dec_digits_ascii(y as nat);
        lemma_dec_digits_len4(y as nat);
    }
    crate::text::push_dec_digits(y, &mut out);
    out.push(0x2d);
    push_pad2(&mut out, m);
    out.push(0x2d);
    push_pad2(&mut out, d0 + 1);
    out.push(0x54);
    push_pad2(&mut out, rem / 3600);
    out.push(0x3a);
    push_pad2(&mut out, (rem % 3600) / 60);
    out.push(0x3a);
    push_pad2(&mut out, rem % 60);
    out.push(0x5a);
    proof {
        assert(out@ =~= rfc3339_bytes(secs as int));
        assert(all_ascii(out@)) by {
            lemma_pad2_digits(m as int);
            lemma_pad2_digits(d0 + 1);
            lemma_pad2_digits(rem as int / 3600);
            lemma_pad2_digits((rem as int % 3600) / 60);
            lemma_pad2_digits(rem as int % 60);
        }
        assert(out@.len() == 20);
        assert(out@[19] == 0x5a);
        assert forall|i: int| 0 <= i < out@.len() implies out@[i] != 0x2e by {
            lemma_pad2_digits(m as int);
            lemma_pad2_digits(d0 + 1);
            lemma_pad2_digits(rem as int / 3600);
            lemma_pad2_digits((rem as int % 3600) / 60);
            lemma_pad2_digits(rem as int % 60);
            lemma_dec_digits_ascii(gy as nat);
        }
    }
    let ghost rendered = out@;
    let s = ascii_string(out);
    proof {
        crate::text::lemma_ascii_decode(rendered);
        assert(vstd::utf8::encode_utf8(s@) == rendered);
        assert(s@[19] == (0x5au8) as char);
        assert forall|i: int| 0 <= i < s@.len() implies '\0' <= #[trigger] s@[i] <= '\u{7f}' by {
            assert(s@[i] == out@[i] as char);
        }
    }
    Some(s)
}

proof fn lemma_pad2_digits(n: int)
    requires
        0 <= n,
    ensures
        pad2(n).len() >= 2,
        forall|i: int| 0 <= i < pad2(n).len() ==> crate::text::is_digit(#[trigger] pad2(n)[i]),
        all_ascii(pad2(n)),
{
    lemma_dec_digits_ascii(n as nat);
    if n >= 10 {
        lemma_dec_digits_ascii((n / 10) as nat);
        assert(dec_digits(n as nat) == dec_digits((n / 10) as nat).push(
            (n % 10 + 0x30) as u8,
        ));
    }
}

/// Relies on `std::time::SystemTime::now`: the current time as whole
/// seconds since the Unix epoch; zero if the clock reads earlier than the
/// epoch.
#[verifier::external_body]
pub(crate) fn now_unix_secs() -> u64 {
    match std::time::SystemTime::now().duration_since(std::time::UNIX_EPOCH) {
        Ok(d) => d.as_secs(),
        Err(_) => 0,
    }
}

} // verus!
