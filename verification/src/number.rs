//! Decimal numerals: formatting unsigned integers, left-padding them with
//! zeros, and reading them back the way `str::parse` reads unsigned integers.

use vstd::prelude::*;
use crate::text::chars_of;

verus! {

/// The character of the decimal digit `d` (`d < 10`).
pub open spec fn digit_char(d: nat) -> char {
    (48 + d) as char
}

/// Whether `c` is one of the ASCII digits `0`..`9`.
pub open spec fn is_digit(c: char) -> bool {
    '0' <= c && c <= '9'
}

/// The decimal numeral of `n`, without sign or leading zeros.
pub open spec fn decimal(n: nat) -> Seq<char>
    decreases n,
{
    if n < 10 {
        seq![digit_char(n)]
    } else {
        decimal(n / 10).push(digit_char(n % 10))
    }
}

/// `s` right-aligned in a field of `width` characters filled with `0`.
pub open spec fn pad_zeros(s: Seq<char>, width: nat) -> Seq<char> {
    if s.len() >= width {
        s
    } else {
        Seq::new((width - s.len()) as nat, |i: int| '0') + s
    }
}

/// The value of a run of decimal digits (0 for the empty run).
pub open spec fn digits_value(s: Seq<char>) -> nat
    decreases s.len(),
{
    if s.len() == 0 {
        0
    } else {
        digits_value(s.drop_last()) * 10 + ((s.last() as int - 48) as nat)
    }
}

/// Whether every character of `s` is a decimal digit.
pub open spec fn all_digits(s: Seq<char>) -> bool {
    forall|i: int| 0 <= i < s.len() ==> is_digit(#[trigger] s[i])
}

/// `s` without one leading `+`, if it has one.
pub open spec fn unsigned_body(s: Seq<char>) -> Seq<char> {
    if s.len() > 0 && s[0] == '+' {
        s.skip(1)
    } else {
        s
    }
}

/// What `str::parse` gives for an unsigned integer type whose largest value
/// is `max`: an optional `+`, then one or more decimal digits whose value
/// does not exceed `max`; anything else is refused.
pub open spec fn parse_unsigned(s: Seq<char>, max: nat) -> Option<nat> {
    let d = unsigned_body(s);
    if d.len() > 0 && all_digits(d) && digits_value(d) <= max {
        Some(digits_value(d))
    } else {
        None
    }
}

/// The character of the digit `d`.
pub fn digit_of(d: u64) -> (c: char)
    requires
        d < 10,
    ensures
        c == digit_char(d as nat),
{
    let b: u8 = 48u8 + (d as u8);
    b as char
}

/// The decimal numeral of `n`.
pub fn decimal_chars(n: u64) -> (v: Vec<char>)
    ensures
        v@ == decimal(n as nat),
    decreases n,
{
    if n < 10 {
        let mut v: Vec<char> = Vec::new();
        v.push(digit_of(n));
        assert(v@ =~= seq![digit_char(n as nat)]);
        v
    } else {
        let mut v = decimal_chars(n / 10);
        v.push(digit_of(n % 10));
        v
    }
}

/// `s` left-padded with `0` to at least `width` characters.
pub fn pad_zeros_chars(s: &Vec<char>, width: usize) -> (v: Vec<char>)
    ensures
        v@ == pad_zeros(s@, width as nat),
{
    let mut v: Vec<char> = Vec::new();
    if s.len() < width {
        let fill = width - s.len();
        let mut k: usize = 0;
        while k < fill
            invariant
                k <= fill,
                v@ == Seq::new(k as nat, |i: int| '0'),
            decreases fill - k,
        {
            v.push('0');
            k = k + 1;
            assert(v@ =~= Seq::new(k as nat, |i: int| '0'));
        }
    }
    crate::text::extend_chars(&mut v, s);
    assert(v@ =~= pad_zeros(s@, width as nat));
    v
}

/// A prefix of an all-digit run is worth no more than the whole run.
pub proof fn lemma_digits_value_prefix(s: Seq<char>, k: int)
    requires
        0 <= k <= s.len(),
        all_digits(s),
    ensures
        digits_value(s.take(k)) <= digits_value(s),
    decreases s.len() - k,
{
    if k < s.len() {
        lemma_digits_value_prefix(s, k + 1);
        assert(s.take(k + 1).drop_last() =~= s.take(k));
        assert(is_digit(s[k]));
    } else {
        assert(s.take(k) =~= s);
    }
}

/// Reads an unsigned decimal integer no larger than `max`, as `str::parse` does.
pub fn parse_decimal(s: &Vec<char>, max: u64) -> (r: Option<u64>)
    ensures
        r matches Some(v) ==> parse_unsigned(s@, max as nat) == Some(v as nat),
        r is None ==> parse_unsigned(s@, max as nat) is None,
{
    let ghost d = unsigned_body(s@);
    let mut start: usize = 0;
    if s.len() > 0 && s[0] == '+' {
        start = 1;
    }
    assert(d =~= s@.skip(start as int));
    if start >= s.len() {
        return None;
    }
    let mut value: u64 = 0;
    let mut k: usize = start;
    assert(d.take(0) =~= Seq::<char>::empty());
    while k < s.len()
        invariant
            start <= k <= s.len(),
            d == s@.skip(start as int),
            d == unsigned_body(s@),
            value as nat == digits_value(d.take(k - start)),
            value <= max,
            all_digits(d.take(k - start)),
        decreases s.len() - k,
    {
        let c = s[k];
        let ghost j: int = k - start;
        assert(d[j] == c);
        if !('0' <= c && c <= '9') {
            assert(!all_digits(d)) by {
                assert(!is_digit(d[j]));
            }
            return None;
        }
        let dig: u64 = (c as u64) - 48;
        assert(d.take(j + 1).drop_last() =~= d.take(j));
        assert(d.take(j + 1).last() == c);
        assert(all_digits(d.take(j + 1))) by {
            assert forall|i: int| 0 <= i < d.take(j + 1).len() implies is_digit(
                #[trigger] d.take(j + 1)[i],
            ) by {
                if i < j {
                    assert(d.take(j + 1)[i] == d.take(j)[i]);
                }
            }
        }
        match value.checked_mul(10) {
            None => {
                proof {
                    if all_digits(d) {
                        lemma_digits_value_prefix(d, j + 1);
                    }
                }
                return None;
            },
            Some(m) => match m.checked_add(dig) {
                None => {
                    proof {
                        if all_digits(d) {
                            lemma_digits_value_prefix(d, j + 1);
                        }
                    }
                    return None;
                },
                Some(nv) => {
                    if nv > max {
                        proof {
                            if all_digits(d) {
                                lemma_digits_value_prefix(d, j + 1);
                            }
                        }
                        return None;
                    }
                    value = nv;
                },
            },
        }
        k = k + 1;
    }
    assert(d.take(k - start) =~= d);
    Some(value)
}

/// What `str::parse::<u32>` gives for `s`.
pub open spec fn parsed_u32(s: Seq<char>) -> Option<u32> {
    match parse_unsigned(s, u32::MAX as nat) {
        Some(v) => Some(v as u32),
        None => None,
    }
}

/// What `str::parse::<usize>` gives for `s`.
pub open spec fn parsed_usize(s: Seq<char>) -> Option<usize> {
    match parse_unsigned(s, usize::MAX as nat) {
        Some(v) => Some(v as usize),
        None => None,
    }
}

/// Reads a `u32` the way `str::parse::<u32>` does.
pub fn parse_u32(s: &str) -> (r: Option<u32>)
    ensures
        r == parsed_u32(s@),
{
    let cs = chars_of(s);
    match parse_decimal(&cs, u32::MAX as u64) {
        Some(v) => Some(v as u32),
        None => None,
    }
}

/// Reads a `usize` the way `str::parse::<usize>` does.
pub fn parse_usize(s: &str) -> (r: Option<usize>)
    ensures
        r == parsed_usize(s@),
{
    let cs = chars_of(s);
    match parse_decimal(&cs, usize::MAX as u64) {
        Some(v) => Some(v as usize),
        None => None,
    }
}

/// A numeral is a non-empty run of digits worth the number it spells.
pub proof fn lemma_decimal_digits(n: nat)
    ensures
        decimal(n).len() > 0,
        all_digits(decimal(n)),
        digits_value(decimal(n)) == n,
    decreases n,
{
    assert((digit_char(n % 10) as int) == 48 + n % 10);
    if n < 10 {
        assert(decimal(n).drop_last() =~= Seq::<char>::empty());
        assert(n % 10 == n);
        assert(digits_value(decimal(n)) == digits_value(decimal(n).drop_last()) * 10 + ((
        decimal(n).last() as int - 48) as nat));
        assert(digits_value(Seq::<char>::empty()) == 0);
    } else {
        lemma_decimal_digits(n / 10);
        let s = decimal(n / 10);
        assert(decimal(n).drop_last() =~= s);
        assert(decimal(n).last() == digit_char(n % 10));
        assert(n == (n / 10) * 10 + n % 10) by (nonlinear_arith);
        assert(digits_value(decimal(n)) == digits_value(s) * 10 + ((decimal(n).last() as int
            - 48) as nat));
        assert forall|i: int| 0 <= i < decimal(n).len() implies is_digit(#[trigger] decimal(n)[i]) by {
            if i < s.len() {
                assert(decimal(n)[i] == s[i]);
            }
        }
    }
}

/// Reading back the numeral of `n` gives `n`, for every `n` within the
/// type's range.
pub proof fn lemma_decimal_reads_back(n: nat, max: nat)
    requires
        n <= max,
    ensures
        parse_unsigned(decimal(n), max) == Some(n),
{
    lemma_decimal_digits(n);
    assert(is_digit(decimal(n)[0]));
    assert(unsigned_body(decimal(n)) == decimal(n));
}

/// Zero-padding to `width` gives at least `width` characters and never
/// shortens the numeral.
pub proof fn lemma_pad_zeros_len(s: Seq<char>, width: nat)
    ensures
        pad_zeros(s, width).len() == if s.len() >= width {
            s.len()
        } else {
            width
        },
{
}

/// Zero-padding only adds `0`s in front: the numeral stands unchanged at the
/// end, and everything before it is `0`.
pub proof fn lemma_pad_zeros_shape(s: Seq<char>, width: nat)
    ensures
        pad_zeros(s, width).len() >= s.len(),
        pad_zeros(s, width).len() >= width,
        pad_zeros(s, width).skip(pad_zeros(s, width).len() - s.len()) == s,
        forall|i: int|
            0 <= i < pad_zeros(s, width).len() - s.len() ==> #[trigger] pad_zeros(s, width)[i]
                == '0',
{
    let r = pad_zeros(s, width);
    assert(r.skip(r.len() - s.len()) =~= s);
}

} // verus!
