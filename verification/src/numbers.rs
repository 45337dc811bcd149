//! Decimal text of numbers, and reading it back.
use vstd::prelude::*;

verus! {

/// The digit character for `d < 10`.
pub open spec fn digit_char(d: nat) -> char {
    (('0' as u32) + d) as char
}

/// The decimal text of `n`, without leading zeros (`u64::to_string`).
pub open spec fn decimal(n: nat) -> Seq<char>
    decreases n,
{
    if n < 10 {
        seq![digit_char(n)]
    } else {
        decimal(n / 10).push(digit_char(n % 10))
    }
}

fn digit(d: u64) -> (c: char)
    requires
        d < 10,
    ensures
        c == digit_char(d as nat),
{
    let c = if d == 0 { '0' } else if d == 1 { '1' } else if d == 2 { '2' } else if d == 3 { '3' }
        else if d == 4 { '4' } else if d == 5 { '5' } else if d == 6 { '6' } else if d == 7 { '7' }
        else if d == 8 { '8' } else { '9' };
    c
}

/// The decimal text of `n`.
pub fn u64_to_decimal(n: u64) -> (s: String)
    ensures
        s@ == decimal(n as nat),
    decreases n,
{
    if n < 10 {
        let mut s = String::new();
        crate::text::push_char(&mut s, digit(n));
        assert(s@ =~= seq![digit_char(n as nat)]);
        s
    } else {
        let mut s = u64_to_decimal(n / 10);
        crate::text::push_char(&mut s, digit(n % 10));
        s
    }
}

/// `c` is an ASCII digit.
pub open spec fn is_digit(c: char) -> bool {
    '0' <= c && c <= '9'
}

/// The value of a run of ASCII digits.
pub open spec fn digits_value(d: Seq<char>) -> nat
    decreases d.len(),
{
    if d.len() == 0 {
        0
    } else {
        digits_value(d.drop_last()) * 10 + ((d.last() as int - 48) as nat)
    }
}

/// The digits of a number's text: after an optional leading `+`.
pub open spec fn unsigned_digits(s: Seq<char>) -> Seq<char> {
    if s.len() > 0 && s[0] == '+' {
        s.skip(1)
    } else {
        s
    }
}

/// `s` read as an unsigned integer of at most `max` as Rust's `FromStr`
/// reads one: an optional `+`, then one or more ASCII digits and nothing
/// else; `None` where `s` is not such a text or its value exceeds `max`.
pub open spec fn parse_unsigned(s: Seq<char>, max: nat) -> Option<nat> {
    let d = unsigned_digits(s);
    if d.len() > 0 && (forall|i: int| 0 <= i < d.len() ==> is_digit(#[trigger] d[i]))
        && digits_value(d) <= max {
        Some(digits_value(d))
    } else {
        None
    }
}

proof fn lemma_digits_mono(d: Seq<char>, i: int, j: int)
    requires
        0 <= i <= j <= d.len(),
        forall|k: int| 0 <= k < d.len() ==> is_digit(#[trigger] d[k]),
    ensures
        digits_value(d.take(i)) <= digits_value(d.take(j)),
    decreases j - i,
{
    if i < j {
        lemma_digits_mono(d, i, j - 1);
        assert(d.take(j).drop_last() =~= d.take(j - 1));
    }
}

fn parse_bounded(s: &[char], max: u64) -> (r: Option<u64>)
    ensures
        match parse_unsigned(s@, max as nat) {
            Some(n) => r == Some(n as u64),
            None => r is None,
        },
{
    let start: usize = if s.len() > 0 && s[0] == '+' { 1 } else { 0 };
    let ghost d = unsigned_digits(s@);
    assert(d =~= s@.skip(start as int));
    if start >= s.len() {
        return None;
    }
    let mut value: u128 = 0;
    let mut i: usize = start;
    while i < s.len()
        invariant
            start <= i <= s.len(),
            d == s@.skip(start as int),
            d == unsigned_digits(s@),
            forall|k: int| 0 <= k < i - start ==> is_digit(#[trigger] d[k]),
            value == digits_value(d.take(i - start)),
            value <= max,
        decreases s.len() - i,
    {
        let c = s[i];
        if !('0' <= c && c <= '9') {
            assert(!is_digit(d[i - start]));
            return None;
        }
        let dv = (c as u32 - '0' as u32) as u128;
        assert(d.take(i - start + 1).drop_last() =~= d.take(i - start));
        assert(d.take(i - start + 1).last() == c);
        value = value * 10 + dv;
        if value > max as u128 {
            proof {
                if forall|k: int| 0 <= k < d.len() ==> is_digit(#[trigger] d[k]) {
                    lemma_digits_mono(d, i - start + 1, d.len() as int);
                    assert(d.take(d.len() as int) =~= d);
                }
            }
            return None;
        }
        i = i + 1;
    }
    assert(d.take(d.len() as int) =~= d);
    Some(value as u64)
}

/// `s` read as a `u32` (`str::parse::<u32>`).
pub fn parse_u32(s: &[char]) -> (r: Option<u32>)
    ensures
        match parse_unsigned(s@, u32::MAX as nat) {
            Some(n) => r == Some(n as u32),
            None => r is None,
        },
{
    match parse_bounded(s, u32::MAX as u64) {
        Some(n) => Some(n as u32),
        None => None,
    }
}

/// `s` read as a `usize` (`str::parse::<usize>`).
pub fn parse_usize(s: &[char]) -> (r: Option<usize>)
    ensures
        match parse_unsigned(s@, usize::MAX as nat) {
            Some(n) => r == Some(n as usize),
            None => r is None,
        },
{
    match parse_bounded(s, usize::MAX as u64) {
        Some(n) => Some(n as usize),
        None => None,
    }
}

/// The digits of a signed number's text: after an optional `+` or `-`.
pub open spec fn signed_digits(s: Seq<char>) -> Seq<char> {
    if s.len() > 0 && (s[0] == '+' || s[0] == '-') {
        s.skip(1)
    } else {
        s
    }
}

/// `s` read as a signed integer within `min..=max` as Rust's `FromStr`
/// reads one: an optional `+` or `-`, then one or more ASCII digits and
/// nothing else; `None` where `s` is not such a text or its value is out of
/// range.
pub open spec fn parse_signed(s: Seq<char>, min: int, max: int) -> Option<int> {
    let neg = s.len() > 0 && s[0] == '-';
    let d = signed_digits(s);
    if d.len() > 0 && (forall|i: int| 0 <= i < d.len() ==> is_digit(#[trigger] d[i])) {
        let v = if neg {
            -digits_value(d)
        } else {
            digits_value(d) as int
        };
        if min <= v <= max {
            Some(v)
        } else {
            None
        }
    } else {
        None
    }
}

/// `s` read as an `i32` (`str::parse::<i32>`).
pub fn parse_i32(s: &[char]) -> (r: Option<i32>)
    ensures
        match parse_signed(s@, i32::MIN as int, i32::MAX as int) {
            Some(n) => r == Some(n as i32),
            None => r is None,
        },
{
    let neg = s.len() > 0 && s[0] == '-';
    let signed = s.len() > 0 && (s[0] == '+' || s[0] == '-');
    let d = if signed {
        crate::text::slice_to_vec(s, 1, s.len())
    } else {
        crate::text::slice_to_vec(s, 0, s.len())
    };
    let ghost dd: Seq<char> = signed_digits(s@);
    assert(d@ =~= dd);
    if d.len() > 0 && d[0] == '+' {
        assert(!is_digit(dd[0]));
        return None;
    }
    assert(unsigned_digits(d@) == d@);
    match parse_bounded(d.as_slice(), 2147483648u64) {
        None => None,
        Some(v) => {
            assert(v == digits_value(dd));
            if neg {
                Some((0 - (v as i64)) as i32)
            } else if v <= 2147483647 {
                Some(v as i32)
            } else {
                None
            }
        },
    }
}

/// Law: reading back the decimal text of a number gives the number: what
/// [`u64_to_decimal`] writes, [`parse_u32`] and [`parse_usize`] read, where
/// it fits.
pub proof fn law_decimal_read_back(n: nat, max: nat)
    requires
        n <= max,
    ensures
        parse_unsigned(decimal(n), max) == Some(n),
{
    lemma_decimal_digits(n);
}

/// Lemma: the decimal text of a number is a non-empty run of digits that
/// reads back as the number.
pub proof fn lemma_decimal_digits(n: nat)
    ensures
        decimal(n).len() > 0,
        decimal(n)[0] != '+',
        forall|i: int| 0 <= i < decimal(n).len() ==> is_digit(#[trigger] decimal(n)[i]),
        digits_value(decimal(n)) == n,
        unsigned_digits(decimal(n)) == decimal(n),
    decreases n,
{
    if n < 10 {
        assert(digit_char(n) as int == 48 + n);
        assert(digits_value(decimal(n)) == digits_value(seq![digit_char(n)]));
        assert(seq![digit_char(n)].drop_last() =~= Seq::<char>::empty());
        assert(digits_value(Seq::<char>::empty()) == 0);
        assert(seq![digit_char(n)].last() == digit_char(n));
        assert(digits_value(seq![digit_char(n)]) == n);
    } else {
        assert(digit_char(n % 10) as int == 48 + n % 10);
        lemma_decimal_digits(n / 10);
        let d = decimal(n / 10);
        let s = d.push(digit_char(n % 10));
        assert(s.drop_last() =~= d);
        assert(s[0] == d[0]);
        assert forall|i: int| 0 <= i < s.len() implies is_digit(#[trigger] s[i]) by {
            if i < d.len() {
                assert(s[i] == d[i]);
            }
        }
        assert(digits_value(s) == digits_value(d) * 10 + (n % 10));
        vstd::arithmetic::div_mod::lemma_fundamental_div_mod(n as int, 10);
        assert((n / 10) * 10 + n % 10 == n) by (nonlinear_arith)
            requires
                n == 10 * (n / 10) + n % 10,
        ;
        assert(digits_value(s) == n);
        assert(decimal(n) == s);
    }
}

} // verus!
