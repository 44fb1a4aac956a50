//! Small text utilities shared by the AT parser and the response
//! formatter: character-level string building, ASCII case folding, and
//! decimal rendering/parsing with exact specifications.

use vstd::prelude::*;

verus! {

/// ASCII decimal digit?
pub open spec fn is_digit(c: char) -> bool {
    '0' <= c && c <= '9'
}

/// Numeric value of an ASCII digit.
pub open spec fn digit_val(c: char) -> int {
    (c as u32) - ('0' as u32)
}

/// The digit character for `d` in 0..=9.
pub open spec fn digit_char(d: int) -> char {
    if d == 0 {
        '0'
    } else if d == 1 {
        '1'
    } else if d == 2 {
        '2'
    } else if d == 3 {
        '3'
    } else if d == 4 {
        '4'
    } else if d == 5 {
        '5'
    } else if d == 6 {
        '6'
    } else if d == 7 {
        '7'
    } else if d == 8 {
        '8'
    } else {
        '9'
    }
}

/// Decimal digits of `n`, most significant first, no leading zeros
/// (a single `'0'` for zero).
pub open spec fn dec_digits(n: nat) -> Seq<char>
    decreases n,
{
    if n < 10 {
        seq![digit_char(n as int)]
    } else {
        dec_digits(n / 10).push(digit_char((n % 10) as int))
    }
}

/// Three-digit zero-padded decimal of a byte value.
pub open spec fn dec3_digits(v: int) -> Seq<char> {
    seq![
        digit_char(v / 100),
        digit_char((v / 10) % 10),
        digit_char(v % 10),
    ]
}

/// ASCII upper-case folding of one character.
pub open spec fn upper_char(c: char) -> char {
    if 'a' <= c && c <= 'z' {
        ((((c as u32) - 32) as u8) as char)
    } else {
        c
    }
}

/// Value of a run of ASCII digits, most significant first.
pub open spec fn digits_value(s: Seq<char>) -> nat
    decreases s.len(),
{
    if s.len() == 0 {
        0
    } else {
        (digits_value(s.drop_last()) * 10 + (if is_digit(s.last()) {
            digit_val(s.last())
        } else {
            0
        })) as nat
    }
}

/// A longer digit run never has a smaller value.
proof fn lemma_digits_value_prefix(s: Seq<char>, i: int)
    requires
        0 <= i <= s.len(),
    ensures
        digits_value(s.subrange(0, i)) <= digits_value(s),
    decreases s.len() - i,
{
    if i < s.len() {
        let t = s.subrange(0, i + 1);
        assert(t.drop_last() =~= s.subrange(0, i));
        lemma_digits_value_prefix(s, i + 1);
        assert(s.subrange(0, s.len() as int) =~= s);
    } else {
        assert(s.subrange(0, i) =~= s);
    }
}

/// Relies on std's String::push: appends exactly the one character.
#[verifier::external_body]
pub(crate) fn push_char(s: &mut String, c: char)
    ensures
        final(s)@ == old(s)@.push(c),
{
    s.push(c);
}

/// Build a String out of a character vector.
pub fn chars_to_string(v: &Vec<char>) -> (s: String)
    ensures
        s@ == v@,
{
    let mut s = String::new();
    let mut i: usize = 0;
    while i < v.len()
        invariant
            i <= v@.len(),
            s@ == v@.subrange(0, i as int),
        decreases v@.len() - i,
    {
        push_char(&mut s, v[i]);
        proof {
            assert(s@ =~= v@.subrange(0, i + 1));
        }
        i = i + 1;
    }
    proof {
        assert(s@ =~= v@);
    }
    s
}

/// ASCII upper-case folding, executable form.
pub fn to_upper(c: char) -> (r: char)
    ensures
        r == upper_char(c),
{
    if c >= 'a' && c <= 'z' {
        (((c as u32) - 32) as u8) as char
    } else {
        c
    }
}

/// The digit character for a value in 0..=9, executable form.
pub fn digit_to_char(d: u32) -> (r: char)
    requires
        d <= 9,
    ensures
        r == digit_char(d as int),
{
    if d == 0 {
        '0'
    } else if d == 1 {
        '1'
    } else if d == 2 {
        '2'
    } else if d == 3 {
        '3'
    } else if d == 4 {
        '4'
    } else if d == 5 {
        '5'
    } else if d == 6 {
        '6'
    } else if d == 7 {
        '7'
    } else if d == 8 {
        '8'
    } else {
        '9'
    }
}

/// Append the decimal rendering of `n` to `s`.
pub fn push_u32_dec(s: &mut String, n: u32)
    ensures
        final(s)@ == old(s)@ + dec_digits(n as nat),
    decreases n,
{
    if n >= 10 {
        push_u32_dec(s, n / 10);
    }
    push_char(s, digit_to_char(n % 10));
    proof {
        if n < 10 {
            assert(old(s)@ + dec_digits(n as nat) =~= old(s)@.push(digit_char((n % 10) as int)));
        } else {
            assert(old(s)@ + dec_digits(n as nat) =~= (old(s)@ + dec_digits((n / 10) as nat)).push(
                digit_char((n % 10) as int),
            ));
        }
    }
}

/// Three-digit zero-padded decimal of a byte value, as used by
/// S-register queries.
pub fn format_dec3(v: u8) -> (s: String)
    ensures
        s@ == dec3_digits(v as int),
{
    let mut s = String::new();
    push_char(&mut s, digit_to_char((v as u32) / 100));
    push_char(&mut s, digit_to_char(((v as u32) / 10) % 10));
    push_char(&mut s, digit_to_char((v as u32) % 10));
    proof {
        assert(s@ =~= dec3_digits(v as int));
    }
    s
}

/// Parse a run of ASCII digits as a `u8`, as `str::parse::<u8>` does on
/// such a run: empty or out of range gives `None`.
pub fn parse_u8_digits(digits: &Vec<char>) -> (r: Option<u8>)
    requires
        forall|i: int| 0 <= i < digits@.len() ==> is_digit(#[trigger] digits@[i]),
    ensures
        r == if digits@.len() == 0 || digits_value(digits@) > 255 {
            Option::<u8>::None
        } else {
            Option::<u8>::Some(digits_value(digits@) as u8)
        },
{
    if digits.len() == 0 {
        return None;
    }
    let mut acc: u32 = 0;
    let mut i: usize = 0;
    while i < digits.len()
        invariant
            i <= digits@.len(),
            forall|j: int| 0 <= j < digits@.len() ==> is_digit(#[trigger] digits@[j]),
            acc == digits_value(digits@.subrange(0, i as int)),
            acc <= 255,
        decreases digits@.len() - i,
    {
        let c = digits[i];
        let d = (c as u32) - ('0' as u32);
        proof {
            assert(digits@.subrange(0, i + 1).drop_last() =~= digits@.subrange(0, i as int));
        }
        if acc > 25 || (acc == 25 && d > 5) {
            proof {
                lemma_digits_value_prefix(digits@, i + 1);
            }
            return None;
        }
        acc = acc * 10 + d;
        i = i + 1;
    }
    proof {
        assert(digits@.subrange(0, digits@.len() as int) =~= digits@);
    }
    Some(acc as u8)
}

/// Parse a run of ASCII digits as a `u32`, as `str::parse::<u32>` does
/// on such a run: empty or out of range gives `None`.
pub fn parse_u32_digits(digits: &Vec<char>) -> (r: Option<u32>)
    requires
        forall|i: int| 0 <= i < digits@.len() ==> is_digit(#[trigger] digits@[i]),
    ensures
        r == if digits@.len() == 0 || digits_value(digits@) > u32::MAX {
            Option::<u32>::None
        } else {
            Option::<u32>::Some(digits_value(digits@) as u32)
        },
{
    if digits.len() == 0 {
        return None;
    }
    let mut acc: u64 = 0;
    let mut i: usize = 0;
    while i < digits.len()
        invariant
            i <= digits@.len(),
            forall|j: int| 0 <= j < digits@.len() ==> is_digit(#[trigger] digits@[j]),
            acc == digits_value(digits@.subrange(0, i as int)),
            acc <= u32::MAX,
        decreases digits@.len() - i,
    {
        let c = digits[i];
        let d = ((c as u32) - ('0' as u32)) as u64;
        proof {
            assert(digits@.subrange(0, i + 1).drop_last() =~= digits@.subrange(0, i as int));
        }
        if acc * 10 + d > 0xFFFF_FFFF {
            proof {
                lemma_digits_value_prefix(digits@, i + 1);
            }
            return None;
        }
        acc = acc * 10 + d;
        i = i + 1;
    }
    proof {
        assert(digits@.subrange(0, digits@.len() as int) =~= digits@);
    }
    Some(acc as u32)
}

} // verus!
