//! Decimal text of integers, both ways, as `to_string` and `str::parse`
//! have it for `i64`.
use vstd::prelude::*;
use crate::tokens::text_of;

verus! {

/// The character of a decimal digit.
pub open spec fn digit_char(d: nat) -> char {
    (d + 48) as char
}

/// The decimal digits of a natural number, most significant first.
pub open spec fn digits_of(n: nat) -> Seq<char>
    decreases n,
{
    if n < 10 {
        seq![digit_char(n)]
    } else {
        digits_of(n / 10).push(digit_char(n % 10))
    }
}

/// The decimal text of an integer, with `-` in front of a negative one.
pub open spec fn decimal(i: int) -> Seq<char> {
    if i < 0 {
        seq!['-'] + digits_of((-i) as nat)
    } else {
        digits_of(i as nat)
    }
}

fn digit(d: u64) -> (c: char)
    requires
        d < 10,
    ensures
        c == digit_char(d as nat),
{
    let b: u8 = 48u8 + (d as u8);
    let c = b as char;
    assert(c == digit_char(d as nat)) by {
        assert(b as nat == d + 48);
    }
    c
}

/// The decimal digits of `n`.
pub fn digits(n: u64) -> (r: Vec<char>)
    ensures
        r@ == digits_of(n as nat),
    decreases n,
{
    if n < 10 {
        let mut r: Vec<char> = Vec::new();
        r.push(digit(n));
        assert(r@ =~= seq![digit_char(n as nat)]);
        r
    } else {
        let mut r = digits(n / 10);
        r.push(digit(n % 10));
        r
    }
}

/// The decimal text of `i` (`i.to_string()`).
pub fn i64_text(i: i64) -> (r: Vec<char>)
    ensures
        r@ == decimal(i as int),
{
    if i < 0 {
        let mag: u64 = (0i128 - (i as i128)) as u64;
        let d = digits(mag);
        let mut r: Vec<char> = Vec::new();
        r.push('-');
        let mut k: usize = 0;
        while k < d.len()
            invariant
                k <= d.len(),
                r@ == seq!['-'] + d@.subrange(0, k as int),
            decreases d.len() - k,
        {
            r.push(d[k]);
            k = k + 1;
            assert(r@ =~= seq!['-'] + d@.subrange(0, k as int));
        }
        assert(d@.subrange(0, d@.len() as int) =~= d@);
        r
    } else {
        digits(i as u64)
    }
}

/// Why a text is not an `i64`, as `core::num::IntErrorKind` has it.
#[derive(Clone, Copy, PartialEq, Eq, Structural, Debug)]
pub enum IntError {
    Empty,
    InvalidDigit,
    PosOverflow,
    NegOverflow,
}

/// The message with which an `IntError` is displayed.
pub open spec fn int_error_message(e: IntError) -> Seq<char> {
    match e {
        IntError::Empty => "cannot parse integer from empty string"@,
        IntError::InvalidDigit => "invalid digit found in string"@,
        IntError::PosOverflow => "number too large to fit in target type"@,
        IntError::NegOverflow => "number too small to fit in target type"@,
    }
}

/// The message of `e`.
pub fn int_error_text(e: IntError) -> (r: Vec<char>)
    ensures
        r@ == int_error_message(e),
{
    match e {
        IntError::Empty => text_of("cannot parse integer from empty string"),
        IntError::InvalidDigit => text_of("invalid digit found in string"),
        IntError::PosOverflow => text_of("number too large to fit in target type"),
        IntError::NegOverflow => text_of("number too small to fit in target type"),
    }
}

pub open spec fn is_digit(c: char) -> bool {
    '0' <= c <= '9'
}

pub open spec fn digit_value(c: char) -> int {
    c as int - 48
}

/// Reads the digits of `s` from position `k` on, `acc` being the value so
/// far (negated when `neg`); fails at the first non-digit or at the first
/// digit that leaves the range of `i64`.
pub open spec fn scan_digits(s: Seq<char>, k: int, acc: int, neg: bool) -> Result<i64, IntError>
    decreases s.len() - k,
{
    if k < 0 || k >= s.len() {
        Ok(acc as i64)
    } else if !is_digit(s[k]) {
        Err(IntError::InvalidDigit)
    } else {
        let next = if neg {
            acc * 10 - digit_value(s[k])
        } else {
            acc * 10 + digit_value(s[k])
        };
        if next < i64::MIN || next > i64::MAX {
            Err(
                if neg {
                    IntError::NegOverflow
                } else {
                    IntError::PosOverflow
                },
            )
        } else {
            scan_digits(s, k + 1, next, neg)
        }
    }
}

/// What `s.parse::<i64>()` gives: an optional sign, then at least one digit.
pub open spec fn parse_i64_spec(s: Seq<char>) -> Result<i64, IntError> {
    if s.len() == 0 {
        Err(IntError::Empty)
    } else if (s[0] == '+' || s[0] == '-') && s.len() == 1 {
        Err(IntError::InvalidDigit)
    } else if s[0] == '-' {
        scan_digits(s, 1, 0, true)
    } else if s[0] == '+' {
        scan_digits(s, 1, 0, false)
    } else {
        scan_digits(s, 0, 0, false)
    }
}

/// Parses a decimal `i64` the way `str::parse` does.
pub fn parse_i64(s: &Vec<char>) -> (r: Result<i64, IntError>)
    ensures
        r == parse_i64_spec(s@),
{
    if s.len() == 0 {
        return Err(IntError::Empty);
    }
    if (s[0] == '+' || s[0] == '-') && s.len() == 1 {
        return Err(IntError::InvalidDigit);
    }
    let neg = s[0] == '-';
    let mut k: usize = if s[0] == '-' || s[0] == '+' {
        1
    } else {
        0
    };
    let ghost k0 = k as int;
    let mut acc: i128 = 0;
    while k < s.len()
        invariant
            k <= s.len(),
            i64::MIN <= acc <= i64::MAX,
            parse_i64_spec(s@) == scan_digits(s@, k as int, acc as int, neg),
        decreases s.len() - k,
    {
        let c = s[k];
        if !('0' <= c && c <= '9') {
            return Err(IntError::InvalidDigit);
        }
        let d: i128 = (c as u32) as i128 - 48;
        let next: i128 = if neg {
            acc * 10 - d
        } else {
            acc * 10 + d
        };
        if next < i64::MIN as i128 || next > i64::MAX as i128 {
            return Err(
                if neg {
                    IntError::NegOverflow
                } else {
                    IntError::PosOverflow
                },
            );
        }
        acc = next;
        k = k + 1;
    }
    Ok(acc as i64)
}

} // verus!

verus! {

// ---------------------------------------------------------------------------
// Laws
// ---------------------------------------------------------------------------

/// One more character read after a value `v`.
pub open spec fn scan_step(v: int, c: char, neg: bool) -> Result<i64, IntError> {
    if !is_digit(c) {
        Err(IntError::InvalidDigit)
    } else {
        let next = if neg {
            v * 10 - digit_value(c)
        } else {
            v * 10 + digit_value(c)
        };
        if next < i64::MIN || next > i64::MAX {
            Err(
                if neg {
                    IntError::NegOverflow
                } else {
                    IntError::PosOverflow
                },
            )
        } else {
            Ok(next as i64)
        }
    }
}

proof fn lemma_scan_push(s: Seq<char>, c: char, k: int, acc: int, neg: bool)
    requires
        0 <= k <= s.len(),
        i64::MIN <= acc <= i64::MAX,
        scan_digits(s, k, acc, neg) is Ok,
    ensures
        scan_digits(s.push(c), k, acc, neg) == scan_step(
            scan_digits(s, k, acc, neg)->Ok_0 as int,
            c,
            neg,
        ),
    decreases s.len() - k,
{
    let t = s.push(c);
    if k == s.len() {
        assert(t[k] == c);
        let next = if neg {
            acc * 10 - digit_value(c)
        } else {
            acc * 10 + digit_value(c)
        };
        if is_digit(c) && i64::MIN <= next <= i64::MAX {
            assert(scan_digits(t, k + 1, next, neg) == Ok::<i64, IntError>(next as i64));
        }
    } else {
        assert(t[k] == s[k]);
        let next = if neg {
            acc * 10 - digit_value(s[k])
        } else {
            acc * 10 + digit_value(s[k])
        };
        lemma_scan_push(s, c, k + 1, next, neg);
    }
}

proof fn lemma_scan_offset(p: Seq<char>, d: Seq<char>, k: int, acc: int, neg: bool)
    requires
        0 <= k <= d.len(),
    ensures
        scan_digits(p + d, p.len() + k, acc, neg) == scan_digits(d, k, acc, neg),
    decreases d.len() - k,
{
    if k < d.len() {
        assert((p + d)[p.len() + k] == d[k]);
        let next = if neg {
            acc * 10 - digit_value(d[k])
        } else {
            acc * 10 + digit_value(d[k])
        };
        lemma_scan_offset(p, d, k + 1, next, neg);
    }
}

proof fn lemma_digit_char(d: nat)
    requires
        d < 10,
    ensures
        is_digit(digit_char(d)),
        digit_value(digit_char(d)) == d,
{
}

proof fn lemma_digits_of_shape(n: nat)
    ensures
        digits_of(n).len() >= 1,
        is_digit(digits_of(n)[0]),
    decreases n,
{
    if n < 10 {
        lemma_digit_char(n);
    } else {
        lemma_digits_of_shape(n / 10);
    }
}

proof fn lemma_scan_digits_of(n: nat, neg: bool)
    requires
        neg ==> n <= 0x8000_0000_0000_0000,
        !neg ==> n <= i64::MAX,
    ensures
        scan_digits(digits_of(n), 0, 0, neg) == Ok::<i64, IntError>(
            (if neg {
                -n
            } else {
                n as int
            }) as i64,
        ),
    decreases n,
{
    if n < 10 {
        lemma_digit_char(n);
        let s = digits_of(n);
        let next = if neg {
            -(n as int)
        } else {
            n as int
        };
        assert(scan_digits(s, 1, next, neg) == Ok::<i64, IntError>(next as i64));
    } else {
        lemma_scan_digits_of(n / 10, neg);
        lemma_digit_char(n % 10);
        lemma_scan_push(digits_of(n / 10), digit_char(n % 10), 0, 0, neg);
    }
}

/// Reading back the decimal text of a number gives the number: what
/// `i64_text` writes, `parse_i64` reads.
pub proof fn lemma_parse_decimal(i: i64)
    ensures
        parse_i64_spec(decimal(i as int)) == Ok::<i64, IntError>(i),
{
    if i >= 0 {
        lemma_digits_of_shape(i as nat);
        lemma_scan_digits_of(i as nat, false);
    } else {
        let n = (-i) as nat;
        lemma_digits_of_shape(n);
        lemma_scan_digits_of(n, true);
        let s = decimal(i as int);
        assert(s == seq!['-'] + digits_of(n));
        lemma_scan_offset(seq!['-'], digits_of(n), 0, 0, true);
        assert(s[0] == '-');
        assert(s.len() >= 2);
    }
}

} // verus!
