//! Decimal integer parsing with the outcomes of `i64::from_str`.
use crate::text::{decimal, digit_char, padded_decimal, signed_decimal};
use vstd::prelude::*;
use vstd::string::*;

verus! {

/// Why a string is not an `i64`: the kinds of `std::num::ParseIntError`.
#[derive(Debug, Clone, Copy, PartialEq, Eq)]
pub enum IntErrorKind {
    Empty,
    InvalidDigit,
    PosOverflow,
    NegOverflow,
}

/// A character `0` to `9`.
pub open spec fn is_ascii_digit(c: char) -> bool {
    48 <= (c as u32) <= 57
}

/// The value of an ASCII digit.
pub open spec fn digit_value(c: char) -> int {
    (c as u32) - 48
}

/// Scans the digits `ds[i..]` onto the value `acc`, from the left, failing at the
/// first character that is not a digit or at the first step that leaves `i64`.
pub open spec fn scan_digits(ds: Seq<char>, negative: bool, i: int, acc: int) -> Result<
    int,
    IntErrorKind,
>
    decreases ds.len() - i,
{
    if i < 0 || i >= ds.len() {
        Ok(acc)
    } else if !is_ascii_digit(ds[i]) {
        Err(IntErrorKind::InvalidDigit)
    } else {
        let next = if negative {
            acc * 10 - digit_value(ds[i])
        } else {
            acc * 10 + digit_value(ds[i])
        };
        if next > i64::MAX {
            Err(IntErrorKind::PosOverflow)
        } else if next < i64::MIN {
            Err(IntErrorKind::NegOverflow)
        } else {
            scan_digits(ds, negative, i + 1, next)
        }
    }
}

/// What `s.parse::<i64>()` gives: an optional sign, then one or more ASCII digits.
pub open spec fn parse_i64(s: Seq<char>) -> Result<int, IntErrorKind> {
    if s.len() == 0 {
        Err(IntErrorKind::Empty)
    } else if s.len() == 1 && (s[0] == '+' || s[0] == '-') {
        Err(IntErrorKind::InvalidDigit)
    } else if s[0] == '+' {
        scan_digits(s.drop_first(), false, 0, 0)
    } else if s[0] == '-' {
        scan_digits(s.drop_first(), true, 0, 0)
    } else {
        scan_digits(s, false, 0, 0)
    }
}

/// The text of `ParseIntError` for each kind.
pub open spec fn int_error_text(kind: IntErrorKind) -> Seq<char> {
    match kind {
        IntErrorKind::Empty => "cannot parse integer from empty string"@,
        IntErrorKind::InvalidDigit => "invalid digit found in string"@,
        IntErrorKind::PosOverflow => "number too large to fit in target type"@,
        IntErrorKind::NegOverflow => "number too small to fit in target type"@,
    }
}

/// The text of `ParseIntError` for each kind.
pub fn int_error_message(kind: IntErrorKind) -> (r: &'static str)
    ensures
        r@ == int_error_text(kind),
{
    match kind {
        IntErrorKind::Empty => "cannot parse integer from empty string",
        IntErrorKind::InvalidDigit => "invalid digit found in string",
        IntErrorKind::PosOverflow => "number too large to fit in target type",
        IntErrorKind::NegOverflow => "number too small to fit in target type",
    }
}

proof fn lemma_scan_ok_in_range(ds: Seq<char>, negative: bool, i: int, acc: int)
    requires
        i64::MIN <= acc <= i64::MAX,
    ensures
        scan_digits(ds, negative, i, acc) matches Ok(v) ==> i64::MIN <= v <= i64::MAX,
    decreases ds.len() - i,
{
    if 0 <= i < ds.len() && is_ascii_digit(ds[i]) {
        let next = if negative {
            acc * 10 - digit_value(ds[i])
        } else {
            acc * 10 + digit_value(ds[i])
        };
        if i64::MIN <= next <= i64::MAX {
            lemma_scan_ok_in_range(ds, negative, i + 1, next);
        }
    }
}

/// Scans the digits of `s` from character `start` on.
fn scan(s: &str, start: usize, negative: bool) -> (r: Result<i64, IntErrorKind>)
    requires
        start <= s@.len(),
    ensures
        match r {
            Ok(v) => scan_digits(s@.skip(start as int), negative, 0, 0) == Ok::<
                int,
                IntErrorKind,
            >(v as int),
            Err(k) => scan_digits(s@.skip(start as int), negative, 0, 0) == Err::<
                int,
                IntErrorKind,
            >(k),
        },
{
    let n = s.unicode_len();
    let ghost ds = s@.skip(start as int);
    let mut i: usize = start;
    let mut acc: i128 = 0;
    while i < n
        invariant
            n == s@.len(),
            start <= i <= n,
            ds == s@.skip(start as int),
            i64::MIN <= acc <= i64::MAX,
            scan_digits(ds, negative, 0, 0) == scan_digits(ds, negative, i - start, acc as int),
        decreases n - i,
    {
        let c = s.get_char(i);
        assert(ds[i - start] == c);
        let u = c as u32;
        if u < 48 || u > 57 {
            return Err(IntErrorKind::InvalidDigit);
        }
        let d = (u - 48) as i128;
        let next: i128 = if negative {
            acc * 10 - d
        } else {
            acc * 10 + d
        };
        if next > i64::MAX as i128 {
            return Err(IntErrorKind::PosOverflow);
        }
        if next < i64::MIN as i128 {
            return Err(IntErrorKind::NegOverflow);
        }
        acc = next;
        i = i + 1;
    }
    Ok(acc as i64)
}

/// `s.parse::<i64>()`.
pub fn parse_i64_str(s: &str) -> (r: Result<i64, IntErrorKind>)
    ensures
        match r {
            Ok(v) => parse_i64(s@) == Ok::<int, IntErrorKind>(v as int),
            Err(k) => parse_i64(s@) == Err::<int, IntErrorKind>(k),
        },
{
    let n = s.unicode_len();
    if n == 0 {
        return Err(IntErrorKind::Empty);
    }
    let first = s.get_char(0);
    if n == 1 && (first == '+' || first == '-') {
        return Err(IntErrorKind::InvalidDigit);
    }
    assert(s@.skip(1) =~= s@.drop_first());
    assert(s@.skip(0) =~= s@);
    if first == '+' {
        scan(s, 1, false)
    } else if first == '-' {
        scan(s, 1, true)
    } else {
        scan(s, 0, false)
    }
}

/// A parsed value always fits in `i64`.
pub proof fn lemma_parse_i64_in_range(s: Seq<char>)
    ensures
        parse_i64(s) matches Ok(v) ==> i64::MIN <= v <= i64::MAX,
{
    lemma_scan_ok_in_range(s.drop_first(), false, 0, 0);
    lemma_scan_ok_in_range(s.drop_first(), true, 0, 0);
    lemma_scan_ok_in_range(s, false, 0, 0);
}

/// One step of the scan: the digit `c` appended to the value `acc`.
pub open spec fn scan_step(acc: int, c: char, negative: bool) -> Result<int, IntErrorKind> {
    if !is_ascii_digit(c) {
        Err(IntErrorKind::InvalidDigit)
    } else {
        let next = if negative {
            acc * 10 - digit_value(c)
        } else {
            acc * 10 + digit_value(c)
        };
        if next > i64::MAX {
            Err(IntErrorKind::PosOverflow)
        } else if next < i64::MIN {
            Err(IntErrorKind::NegOverflow)
        } else {
            Ok(next)
        }
    }
}

/// Scanning one more character is one more step after the scan of the rest.
proof fn lemma_scan_push(ds: Seq<char>, c: char, negative: bool, i: int, acc: int)
    requires
        0 <= i <= ds.len(),
    ensures
        scan_digits(ds.push(c), negative, i, acc) == match scan_digits(ds, negative, i, acc) {
            Ok(v) => scan_step(v, c, negative),
            Err(e) => Err(e),
        },
    decreases ds.len() - i,
{
    let dc = ds.push(c);
    assert(dc[i] == if i < ds.len() {
        ds[i]
    } else {
        c
    });
    if i < ds.len() && is_ascii_digit(ds[i]) {
        let next = if negative {
            acc * 10 - digit_value(ds[i])
        } else {
            acc * 10 + digit_value(ds[i])
        };
        lemma_scan_push(ds, c, negative, i + 1, next);
    } else if i == ds.len() {
        let next = if negative {
            acc * 10 - digit_value(c)
        } else {
            acc * 10 + digit_value(c)
        };
        assert(scan_digits(dc, negative, i + 1, next) == Ok::<int, IntErrorKind>(next));
    }
}

/// A digit character is an ASCII digit with its own value.
pub proof fn lemma_digit_char(d: nat)
    requires
        d < 10,
    ensures
        is_ascii_digit(digit_char(d)),
        digit_value(digit_char(d)) == d,
{
    assert(((d + 48) as u8) as char as u32 == d + 48);
}

/// The digits of `m` scan to `m`, or to `-m` after a minus sign.
proof fn lemma_scan_decimal(m: nat, negative: bool)
    requires
        negative ==> m <= -(i64::MIN as int),
        !negative ==> m <= i64::MAX,
    ensures
        scan_digits(decimal(m), negative, 0, 0) == Ok::<int, IntErrorKind>(
            if negative {
                -m
            } else {
                m as int
            },
        ),
        decimal(m).len() > 0,
        is_ascii_digit(decimal(m)[0]),
    decreases m,
{
    if m < 10 {
        lemma_digit_char(m);
        assert(scan_digits(decimal(m), negative, 1, if negative {
            -m
        } else {
            m as int
        }) == Ok::<int, IntErrorKind>(if negative {
            -m
        } else {
            m as int
        }));
    } else {
        let q = m / 10;
        let r = m % 10;
        lemma_scan_decimal(q as nat, negative);
        lemma_digit_char(r as nat);
        lemma_scan_push(decimal(q as nat), digit_char(r as nat), negative, 0, 0);
        assert(q * 10 + r == m);
        assert(decimal(m)[0] == decimal(q as nat)[0]);
    }
}

/// `i64::to_string` then `parse::<i64>` gives the number back, for every `i64`.
pub proof fn lemma_parse_signed_decimal(i: int)
    requires
        i64::MIN <= i <= i64::MAX,
    ensures
        parse_i64(signed_decimal(i)) == Ok::<int, IntErrorKind>(i),
{
    if i >= 0 {
        lemma_scan_decimal(i as nat, false);
    } else {
        let s = signed_decimal(i);
        lemma_scan_decimal((-i) as nat, true);
        assert(s.drop_first() =~= decimal((-i) as nat));
    }
}

/// Every character is an ASCII digit.
pub open spec fn all_digits(s: Seq<char>) -> bool {
    forall|i: int| 0 <= i < s.len() ==> is_ascii_digit(#[trigger] s[i])
}

/// The value of a text of decimal digits, read from the left.
pub open spec fn digits_value(s: Seq<char>) -> int
    decreases s.len(),
{
    if s.len() == 0 {
        0
    } else {
        digits_value(s.drop_last()) * 10 + digit_value(s.last())
    }
}

/// The decimal digits of `n` read back as `n`; there are at most four below ten thousand
/// and at most two below one hundred.
pub proof fn lemma_decimal_value(n: nat)
    ensures
        all_digits(decimal(n)),
        digits_value(decimal(n)) == n,
        1 <= decimal(n).len(),
        n < 10 ==> decimal(n).len() == 1,
        n < 100 ==> decimal(n).len() <= 2,
        n < 1000 ==> decimal(n).len() <= 3,
        n < 10000 ==> decimal(n).len() <= 4,
    decreases n,
{
    if n < 10 {
        lemma_digit_char(n);
        assert(decimal(n).drop_last() =~= Seq::<char>::empty());
        assert(digits_value(Seq::<char>::empty()) == 0);
        assert(decimal(n).last() == digit_char(n));
    } else {
        let q = (n / 10) as nat;
        lemma_decimal_value(q);
        lemma_digit_char((n % 10) as nat);
        assert(decimal(n).drop_last() =~= decimal(q));
        assert(decimal(n).last() == digit_char((n % 10) as nat));
        assert(digits_value(decimal(n)) == digits_value(decimal(q)) * 10 + digit_value(
            digit_char((n % 10) as nat),
        ));
        assert(decimal(n).len() == decimal(q).len() + 1);
        assert(q * 10 + n % 10 == n);
        assert(n < 100 ==> q < 10);
        assert(n < 1000 ==> q < 100);
        assert(n < 10000 ==> q < 1000);
    }
}

/// A leading zero does not change the value.
proof fn lemma_zero_prefix_value(s: Seq<char>)
    ensures
        digits_value(seq!['0'] + s) == digits_value(s),
    decreases s.len(),
{
    assert(digit_value('0') == 0);
    if s.len() == 0 {
        assert((seq!['0'] + s).drop_last() =~= Seq::<char>::empty());
        assert((seq!['0'] + s).last() == '0');
        assert(digits_value(Seq::<char>::empty()) == 0);
    } else {
        assert((seq!['0'] + s).drop_last() =~= seq!['0'] + s.drop_last());
        assert((seq!['0'] + s).last() == s.last());
        assert(digits_value(seq!['0'] + s) == digits_value(seq!['0'] + s.drop_last()) * 10
            + digit_value(s.last()));
        lemma_zero_prefix_value(s.drop_last());
    }
}

/// `n` padded with zeros to `width` digits is all digits, reads back as `n`, and is
/// `width` long when `n` has no more digits than that.
pub proof fn lemma_padded_value(n: nat, width: nat)
    ensures
        all_digits(padded_decimal(n, width)),
        digits_value(padded_decimal(n, width)) == n,
        decimal(n).len() <= width ==> padded_decimal(n, width).len() == width,
    decreases width,
{
    lemma_decimal_value(n);
    if decimal(n).len() < width {
        lemma_padded_value(n, (width - 1) as nat);
        lemma_zero_prefix_value(padded_decimal(n, (width - 1) as nat));
        lemma_digit_char(0);
        let p = padded_decimal(n, (width - 1) as nat);
        assert forall|i: int| 0 <= i < (seq!['0'] + p).len() implies is_ascii_digit(
            #[trigger] (seq!['0'] + p)[i],
        ) by {
            if i > 0 {
                assert((seq!['0'] + p)[i] == p[i - 1]);
            }
        }
    }
}

} // verus!
