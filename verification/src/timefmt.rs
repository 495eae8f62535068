//! Timestamp rendering for listings: a Unix timestamp as
//! `YYYY-MM-DD HH:MM`, computed with the proleptic Gregorian calendar from
//! 1970 onward.

use vstd::prelude::*;

verus! {

use crate::crypto::ascii_string;

/// The Gregorian leap-year rule.
pub open spec fn leap_year(y: int) -> bool {
    (y % 4 == 0 && y % 100 != 0) || y % 400 == 0
}

/// How many days the year has.
pub open spec fn days_in_year(y: int) -> int {
    if leap_year(y) {
        366
    } else {
        365
    }
}

/// Walks whole years off a day count: the year that day `d` (counted from
/// the start of year `y`) falls in, together with the day's offset into that
/// year.
pub open spec fn year_descent(y: int, d: int) -> (int, int)
    decreases d,
{
    if 0 <= d && d >= days_in_year(y) {
        year_descent(y + 1, d - days_in_year(y))
    } else {
        (y, d)
    }
}

/// The length of calendar month `m` (1-based); February depends on `leap`.
pub open spec fn month_len(m: int, leap: bool) -> int {
    if m == 2 {
        if leap {
            29
        } else {
            28
        }
    } else if m == 4 || m == 6 || m == 9 || m == 11 {
        30
    } else {
        31
    }
}

/// Walks whole months off a day-of-year count: the month that day `d`
/// (counted from the start of the year) falls in, together with the
/// zero-based day of that month.
pub open spec fn month_descent(m: int, d: int, leap: bool) -> (int, int)
    decreases 13 - m,
{
    if 1 <= m <= 12 && d >= month_len(m, leap) {
        month_descent(m + 1, d - month_len(m, leap), leap)
    } else {
        (m, d)
    }
}

/// The character for one decimal digit.
pub open spec fn digit(d: int) -> char {
    ((48 + d) as u8) as char
}

/// The decimal digits of a non-negative number, most significant first.
pub open spec fn decimal_digits(n: int) -> Seq<char>
    decreases n,
{
    if n < 10 {
        seq![digit(n)]
    } else {
        decimal_digits(n / 10).push(digit(n % 10))
    }
}

/// The decimal digits, left-padded with zeros to at least `width` places.
pub open spec fn zero_pad(n: int, width: int) -> Seq<char> {
    if decimal_digits(n).len() >= width {
        decimal_digits(n)
    } else {
        Seq::new((width - decimal_digits(n).len()) as nat, |i: int| '0') + decimal_digits(n)
    }
}

/// The bytes of a buffer read as characters.
pub open spec fn chars_of(b: Seq<u8>) -> Seq<char> {
    b.map_values(|x: u8| x as char)
}

/// `YYYY-MM-DD HH:MM` for a count of seconds since the Unix epoch.
pub open spec fn epoch_text(secs: u64) -> Seq<char> {
    let days_total = secs as int / 86400;
    let rem = secs as int % 86400;
    let yd = year_descent(1970, days_total);
    let md = month_descent(1, yd.1, leap_year(yd.0));
    zero_pad(yd.0, 4) + seq!['-'] + zero_pad(md.0, 2) + seq!['-'] + zero_pad(md.1 + 1, 2)
        + seq![' '] + zero_pad(rem / 3600, 2) + seq![':'] + zero_pad((rem % 3600) / 60, 2)
}

/// Whether the year has a leap day.
pub fn is_leap_year(year: u64) -> (r: bool)
    ensures
        r == leap_year(year as int),
{
    (year % 4 == 0 && year % 100 != 0) || (year % 400 == 0)
}

/// The number of days in a year.
fn days_in_year_len(year: u64) -> (d: u64)
    ensures
        d as int == days_in_year(year as int),
{
    if is_leap_year(year) {
        366
    } else {
        365
    }
}

/// The length of a calendar month.
fn month_len_of(m: u64, leap: bool) -> (d: u64)
    ensures
        d as int == month_len(m as int, leap),
{
    if m == 2 {
        if leap {
            29
        } else {
            28
        }
    } else if m == 4 || m == 6 || m == 9 || m == 11 {
        30
    } else {
        31
    }
}

/// How many decimal digits the rendering of `n` has.
proof fn lemma_digit_count(n: int)
    requires
        n >= 0,
    ensures
        n < 10 ==> decimal_digits(n).len() == 1,
        10 <= n < 100 ==> decimal_digits(n).len() == 2,
        100 <= n < 1000 ==> decimal_digits(n).len() == 3,
        n >= 1000 ==> decimal_digits(n).len() >= 4,
    decreases n,
{
    if n >= 10 {
        lemma_digit_count(n / 10);
    }
}

/// Appends the decimal digits of `n` to the buffer.
fn push_decimal(out: &mut Vec<u8>, n: u64)
    ensures
        final(out)@.len() > old(out)@.len(),
        forall|i: int| 0 <= i < old(out)@.len() ==> final(out)@[i] == #[trigger] old(out)@[i],
        forall|i: int|
            old(out)@.len() <= i < final(out)@.len() ==> 48 <= #[trigger] final(out)@[i] <= 57,
        chars_of(final(out)@) == chars_of(old(out)@) + decimal_digits(n as int),
    decreases n,
{
    if n >= 10 {
        push_decimal(out, n / 10);
    }
    let ghost mid = out@;
    out.push(48 + (n % 10) as u8);
    proof {
        assert forall|i: int| 0 <= i < old(out)@.len() implies out@[i] == #[trigger] old(out)@[i] by {
            assert(out@[i] == mid[i]);
        }
        assert(chars_of(out@) =~= chars_of(mid) + seq![digit(n as int % 10)]);
        if n < 10 {
            assert(decimal_digits(n as int) =~= seq![digit(n as int)]);
        } else {
            assert(decimal_digits(n as int) =~= decimal_digits(n as int / 10).push(
                digit(n as int % 10),
            ));
        }
        assert(chars_of(out@) =~= chars_of(old(out)@) + decimal_digits(n as int));
    }
}

/// Appends `n` zero-padded to at least two places, as `{:02}` renders it.
fn push_padded_2(out: &mut Vec<u8>, n: u64)
    ensures
        final(out)@.len() > old(out)@.len(),
        forall|i: int| 0 <= i < old(out)@.len() ==> final(out)@[i] == #[trigger] old(out)@[i],
        forall|i: int|
            old(out)@.len() <= i < final(out)@.len() ==> 48 <= #[trigger] final(out)@[i] <= 57,
        chars_of(final(out)@) == chars_of(old(out)@) + zero_pad(n as int, 2),
{
    proof {
        lemma_digit_count(n as int);
    }
    if n < 10 {
        out.push(48);
    }
    let ghost mid = out@;
    push_decimal(out, n);
    proof {
        if n < 10 {
            assert(chars_of(mid) =~= chars_of(old(out)@) + seq!['0']);
            assert(zero_pad(n as int, 2) =~= seq!['0'] + decimal_digits(n as int));
        }
        assert(chars_of(out@) =~= chars_of(old(out)@) + zero_pad(n as int, 2));
        assert forall|i: int| 0 <= i < old(out)@.len() implies out@[i] == #[trigger] old(out)@[i] by {
            assert(out@[i] == mid[i]);
        }
        assert forall|i: int|
            old(out)@.len() <= i < out@.len() implies 48 <= #[trigger] out@[i] <= 57 by {
            if i < mid.len() {
                assert(out@[i] == mid[i]);
            }
        }
    }
}

/// Appends `n` zero-padded to at least four places, as `{:04}` renders it.
fn push_padded_4(out: &mut Vec<u8>, n: u64)
    ensures
        final(out)@.len() > old(out)@.len(),
        forall|i: int| 0 <= i < old(out)@.len() ==> final(out)@[i] == #[trigger] old(out)@[i],
        forall|i: int|
            old(out)@.len() <= i < final(out)@.len() ==> 48 <= #[trigger] final(out)@[i] <= 57,
        chars_of(final(out)@) == chars_of(old(out)@) + zero_pad(n as int, 4),
{
    proof {
        lemma_digit_count(n as int);
    }
    if n < 10 {
        out.push(48);
        out.push(48);
        out.push(48);
    } else if n < 100 {
        out.push(48);
        out.push(48);
    } else if n < 1000 {
        out.push(48);
    }
    let ghost mid = out@;
    push_decimal(out, n);
    proof {
        if n < 10 {
            assert(chars_of(mid) =~= chars_of(old(out)@) + seq!['0', '0', '0']);
            assert(zero_pad(n as int, 4) =~= seq!['0', '0', '0'] + decimal_digits(n as int));
        } else if n < 100 {
            assert(chars_of(mid) =~= chars_of(old(out)@) + seq!['0', '0']);
            assert(zero_pad(n as int, 4) =~= seq!['0', '0'] + decimal_digits(n as int));
        } else if n < 1000 {
            assert(chars_of(mid) =~= chars_of(old(out)@) + seq!['0']);
            assert(zero_pad(n as int, 4) =~= seq!['0'] + decimal_digits(n as int));
        } else {
            assert(zero_pad(n as int, 4) =~= decimal_digits(n as int));
        }
        assert(chars_of(out@) =~= chars_of(old(out)@) + zero_pad(n as int, 4));
        assert forall|i: int| 0 <= i < old(out)@.len() implies out@[i] == #[trigger] old(out)@[i] by {
            assert(out@[i] == mid[i]);
        }
        assert forall|i: int|
            old(out)@.len() <= i < out@.len() implies 48 <= #[trigger] out@[i] <= 57 by {
            if i < mid.len() {
                assert(out@[i] == mid[i]);
            }
        }
    }
}

/// Renders a timestamp as `YYYY-MM-DD HH:MM`. A negative timestamp wraps
/// through the unsigned second count, as the second-count arithmetic below
/// defines.
pub fn format_timestamp(ts: i64) -> (r: String)
    ensures
        r@ == epoch_text(ts as u64),
{
    let secs = #[verifier::truncate] (ts as u64);
    let days_total = secs / 86400;
    let rem = secs % 86400;
    let hours = rem / 3600;
    let minutes = (rem % 3600) / 60;

    let mut year: u64 = 1970;
    let mut days = days_total;
    let mut year_len = days_in_year_len(year);
    proof {
        assert(days_total <= 0xffff_ffff_ffff_ffffu64 / 86400) by (nonlinear_arith)
            requires
                days_total == secs / 86400,
                secs <= 0xffff_ffff_ffff_ffffu64,
        ;
    }
    while days >= year_len
        invariant
            1970 <= year,
            days <= days_total,
            days_total <= 0xffff_ffff_ffff_ffffu64 / 86400,
            year as int - 1970 <= days_total as int - days as int,
            year_len as int == days_in_year(year as int),
            year_descent(1970, days_total as int) == year_descent(year as int, days as int),
        decreases days,
    {
        days -= year_len;
        year += 1;
        year_len = days_in_year_len(year);
    }
    proof {
        assert(year_descent(year as int, days as int) == (year as int, days as int));
    }

    let leap = is_leap_year(year);
    let mut month: u64 = 1;
    let mut month_days = days;
    loop
        invariant
            1 <= month <= 13,
            month_days <= days,
            days < 366,
            month_descent(1, days as int, leap) == month_descent(
                month as int,
                month_days as int,
                leap,
            ),
        ensures
            1 <= month <= 13,
            month_days <= days,
            (month as int, month_days as int) == month_descent(1, days as int, leap),
        decreases 14 - month,
    {
        if month >= 13 {
            break ;
        }
        let month_length = month_len_of(month, leap);
        if month_days < month_length {
            break ;
        }
        month_days -= month_length;
        month += 1;
    }
    let day = month_days + 1;

    let mut text: Vec<u8> = Vec::new();
    push_padded_4(&mut text, year);
    proof {
        assert(forall|i: int| 0 <= i < text@.len() ==> #[trigger] text@[i] < 128);
    }
    let ghost t1 = text@;
    text.push(45);
    push_padded_2(&mut text, month);
    proof {
        assert(chars_of(t1.push(45)) =~= chars_of(t1) + seq!['-']);
        assert forall|i: int| 0 <= i < text@.len() implies #[trigger] text@[i] < 128 by {
            if i < t1.len() + 1 {
                assert(text@[i] == t1.push(45)[i]);
            }
        }
    }
    let ghost t2 = text@;
    text.push(45);
    push_padded_2(&mut text, day);
    proof {
        assert(chars_of(t2.push(45)) =~= chars_of(t2) + seq!['-']);
        assert forall|i: int| 0 <= i < text@.len() implies #[trigger] text@[i] < 128 by {
            if i < t2.len() + 1 {
                assert(text@[i] == t2.push(45)[i]);
            }
        }
    }
    let ghost t3 = text@;
    text.push(32);
    push_padded_2(&mut text, hours);
    proof {
        assert(chars_of(t3.push(32)) =~= chars_of(t3) + seq![' ']);
        assert forall|i: int| 0 <= i < text@.len() implies #[trigger] text@[i] < 128 by {
            if i < t3.len() + 1 {
                assert(text@[i] == t3.push(32)[i]);
            }
        }
    }
    let ghost t4 = text@;
    text.push(58);
    push_padded_2(&mut text, minutes);
    proof {
        assert(chars_of(t4.push(58)) =~= chars_of(t4) + seq![':']);
        assert forall|i: int| 0 <= i < text@.len() implies #[trigger] text@[i] < 128 by {
            if i < t4.len() + 1 {
                assert(text@[i] == t4.push(58)[i]);
            }
        }
        assert(chars_of(text@) =~= epoch_text(secs));
    }
    ascii_string(text)
}

} // verus!
