//! Whole numbers in decimal notation: how a signed 32-bit value is read from text and
//! written back.

use vstd::prelude::*;
use crate::text::{is_whitespace, lemma_trim_is, trim};

verus! {

/// One of the ten decimal digits.
pub open spec fn is_digit(c: char) -> bool {
    '0' <= c <= '9'
}

/// The number a digit stands for.
pub open spec fn digit_value(c: char) -> int {
    c as int - 0x30
}

/// The digit that stands for `d`.
pub open spec fn digit_char(d: int) -> char {
    (0x30 + d) as u8 as char
}

/// A text of digits only.
pub open spec fn all_digits(s: Seq<char>) -> bool {
    forall|i: int| 0 <= i < s.len() ==> is_digit(#[trigger] s[i])
}

/// The number written by a run of digits, most significant first.
pub open spec fn digits_value(s: Seq<char>) -> nat
    decreases s.len(),
{
    if s.len() == 0 {
        0
    } else {
        (digits_value(s.drop_last()) * 10 + digit_value(s.last())) as nat
    }
}

/// The text after an optional sign.
pub open spec fn unsigned_part(s: Seq<char>) -> Seq<char> {
    if s.len() > 0 && (s[0] == '-' || s[0] == '+') {
        s.drop_first()
    } else {
        s
    }
}

/// The number written by an optional sign and a run of digits.
pub open spec fn signed_value(s: Seq<char>) -> int {
    if s.len() > 0 && s[0] == '-' {
        -(digits_value(unsigned_part(s)) as int)
    } else {
        digits_value(unsigned_part(s)) as int
    }
}

/// What a text reads as: an optional `+` or `-`, then one or more digits and nothing
/// else, naming a value that fits in 32 bits. Every other text reads as nothing.
pub open spec fn parse_i32(s: Seq<char>) -> Option<int> {
    let digits = unsigned_part(s);
    if digits.len() > 0 && all_digits(digits) && i32::MIN <= signed_value(s) <= i32::MAX {
        Some(signed_value(s))
    } else {
        None
    }
}

/// A natural number in decimal, without leading zeros.
pub open spec fn nat_text(n: nat) -> Seq<char>
    decreases n,
{
    if n < 10 {
        seq![digit_char(n as int)]
    } else {
        nat_text(n / 10).push(digit_char((n % 10) as int))
    }
}

/// An integer in decimal, with `-` before a negative one.
pub open spec fn int_text(n: int) -> Seq<char> {
    if n < 0 {
        seq!['-'] + nat_text((-n) as nat)
    } else {
        nat_text(n as nat)
    }
}

proof fn lemma_digits_value_grows(s: Seq<char>, c: char)
    requires
        is_digit(c),
    ensures
        digits_value(s.push(c)) == digits_value(s) * 10 + digit_value(c),
        digits_value(s.push(c)) >= digits_value(s),
{
    assert(s.push(c).drop_last() == s);
}

/// Reads a signed 32-bit number.
pub fn read_i32(s: &Vec<char>) -> (r: Option<i32>)
    ensures
        r is Some <==> parse_i32(s@) is Some,
        r is Some ==> r->Some_0 == parse_i32(s@)->Some_0,
{
    if s.len() == 0 {
        return None;
    }
    let negative: bool = s[0] == '-';
    let first: usize = if s[0] == '-' || s[0] == '+' {
        1
    } else {
        0
    };
    if first == s.len() {
        return None;
    }
    let ghost digits = unsigned_part(s@);
    assert(digits == s@.skip(first as int));
    let limit: u64 = 0x8000_0000;
    let mut value: u64 = 0;
    let mut too_large: bool = false;
    let mut i: usize = first;
    assert(digits.take(0) == Seq::<char>::empty());
    while i < s.len()
        invariant
            first <= i <= s.len(),
            digits == s@.skip(first as int),
            digits == unsigned_part(s@),
            limit == 0x8000_0000,
            all_digits(digits.take(i - first)),
            !too_large ==> value == digits_value(digits.take(i - first)) && value <= limit,
            too_large ==> digits_value(digits.take(i - first)) > limit,
        decreases s.len() - i,
    {
        let c: char = s[i];
        if c < '0' || c > '9' {
            assert(!all_digits(digits)) by {
                assert(digits[i - first] == c);
            }
            return None;
        }
        proof {
            assert(digits.take(i - first + 1) == digits.take(i - first).push(c));
            lemma_digits_value_grows(digits.take(i - first), c);
        }
        if !too_large {
            let d: u64 = (c as u32 - 0x30) as u64;
            value = value * 10 + d;
            if value > limit {
                too_large = true;
            }
        }
        i = i + 1;
    }
    assert(digits.take(i - first) == digits);
    if too_large {
        None
    } else if negative {
        if value == limit {
            Some(i32::MIN)
        } else {
            Some(-(value as i32))
        }
    } else if value == limit {
        None
    } else {
        Some(value as i32)
    }
}

/// Reads a signed 32-bit number, or gives `fallback` where the text is none.
pub fn read_i32_or(s: &Vec<char>, fallback: i32) -> (r: i32)
    ensures
        r == match parse_i32(s@) {
            Some(n) => n,
            None => fallback as int,
        },
{
    match read_i32(s) {
        Some(n) => n,
        None => fallback,
    }
}

fn push_nat(out: &mut String, n: u64)
    ensures
        final(out)@ == old(out)@ + nat_text(n as nat),
    decreases n,
{
    if n >= 10 {
        push_nat(out, n / 10);
    }
    let d: u8 = (n % 10) as u8;
    let c: char = (0x30 + d) as char;
    assert(c == digit_char((n % 10) as int));
    let ghost before = out@;
    out.push(c);
    proof {
        if n >= 10 {
            assert(old(out)@ + nat_text((n / 10) as nat).push(c) == (old(out)@ + nat_text(
                (n / 10) as nat,
            )).push(c));
        } else {
            assert(old(out)@ + seq![c] == old(out)@.push(c));
        }
    }
}

/// Appends `n` in decimal.
pub fn push_i32(out: &mut String, n: i32)
    ensures
        final(out)@ == old(out)@ + int_text(n as int),
{
    if n < 0 {
        out.push('-');
        let m: u64 = (-(n as i64)) as u64;
        push_nat(out, m);
        assert(old(out)@.push('-') + nat_text(m as nat) == old(out)@ + (seq!['-'] + nat_text(
            m as nat,
        )));
    } else {
        push_nat(out, n as u64);
    }
}

proof fn lemma_nat_text(n: nat)
    ensures
        nat_text(n).len() > 0,
        all_digits(nat_text(n)),
        digits_value(nat_text(n)) == n,
    decreases n,
{
    let d = digit_char((n % 10) as int);
    assert(is_digit(d) && digit_value(d) == n % 10);
    if n >= 10 {
        lemma_nat_text(n / 10);
        let head = nat_text(n / 10);
        assert(head.push(d).drop_last() == head);
        assert forall|i: int| 0 <= i < head.push(d).len() implies is_digit(
            #[trigger] head.push(d)[i],
        ) by {
            if i < head.len() {
                assert(head.push(d)[i] == head[i]);
            }
        }
    } else {
        let t = seq![d];
        assert(t.drop_last() == Seq::<char>::empty());
        assert(digits_value(t.drop_last()) == 0);
    }
}

/// A number that fits in 32 bits reads as it was written, and what was written has no
/// white space in it.
pub proof fn lemma_int_text(n: int)
    requires
        i32::MIN <= n <= i32::MAX,
    ensures
        parse_i32(int_text(n)) == Some(n),
        trim(int_text(n)) == int_text(n),
        forall|j: int| 0 <= j < int_text(n).len() ==> int_text(n)[j] != '\n',
{
    let t = int_text(n);
    let m = if n < 0 {
        (-n) as nat
    } else {
        n as nat
    };
    lemma_nat_text(m);
    let digits = nat_text(m);
    assert(is_digit(digits[0]));
    if n < 0 {
        assert(t[0] == '-');
        assert(t.drop_first() == digits);
    } else {
        assert(t == digits);
    }
    assert(unsigned_part(t) == digits);
    assert(signed_value(t) == n);
    assert forall|j: int| 0 <= j < t.len() implies !is_whitespace(#[trigger] t[j]) && t[j]
        != '\n' by {
        if n < 0 && j > 0 {
            assert(t[j] == digits[j - 1]);
            assert(is_digit(digits[j - 1]));
        } else if n >= 0 {
            assert(is_digit(digits[j]));
        }
    }
    assert(!is_whitespace(t[0]));
    assert(!is_whitespace(t[t.len() - 1]));
    lemma_trim_is(t, 0, t.len() as int);
    assert(t.subrange(0, t.len() as int) == t);
}

/// `n` in decimal.
pub fn i32_string(n: i32) -> (r: String)
    ensures
        r@ == int_text(n as int),
{
    let mut r = String::new();
    push_i32(&mut r, n);
    assert(Seq::<char>::empty() + int_text(n as int) == int_text(n as int));
    r
}

} // verus!
