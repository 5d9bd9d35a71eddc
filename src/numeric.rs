//! Reading the digits of a numeric token as a 6-bit value.
use vstd::prelude::*;
use crate::diagnostic::IntError;
use crate::lexer::digit_of;

verus! {

pub open spec fn digit_value(c: char) -> int {
    if '0' <= c && c <= '9' {
        c as int - '0' as int
    } else if 'a' <= c && c <= 'f' {
        c as int - 'a' as int + 10
    } else {
        c as int - 'A' as int + 10
    }
}

/// The number the digits denote; `_` separators are skipped.
pub open spec fn digits_value(s: Seq<char>, radix: u32) -> int
    decreases s.len(),
{
    if s.len() == 0 {
        0
    } else if s.last() == '_' {
        digits_value(s.drop_last(), radix)
    } else {
        digits_value(s.drop_last(), radix) * radix + digit_value(s.last())
    }
}

pub open spec fn has_digit(s: Seq<char>) -> bool {
    exists|i: int| 0 <= i < s.len() && s[i] != '_'
}

pub open spec fn all_valid(s: Seq<char>, radix: u32) -> bool {
    forall|i: int| 0 <= i < s.len() ==> digit_of(#[trigger] s[i], radix) || s[i] == '_'
}

/// The outcome of reading the digits `s` in base `radix` (2, 10 or 16).
pub open spec fn read_digits(s: Seq<char>, radix: u32) -> Result<u8, IntError> {
    if !all_valid(s, radix) {
        Err(IntError::InvalidDigit)
    } else if !has_digit(s) {
        Err(IntError::Empty)
    } else if digits_value(s, radix) > 63 {
        Err(IntError::PosOverflow)
    } else {
        Ok(digits_value(s, radix) as u8)
    }
}

proof fn lemma_value_grows(s: Seq<char>, radix: u32, i: int)
    requires
        0 <= i <= s.len(),
        2 <= radix,
        all_valid(s, radix),
    ensures
        0 <= digits_value(s.subrange(0, i), radix) <= digits_value(s, radix),
    decreases s.len() - i,
{
    lemma_value_nonneg(s, radix);
    if i < s.len() {
        lemma_value_grows(s, radix, i + 1);
        let p = s.subrange(0, i + 1);
        assert(p.drop_last() =~= s.subrange(0, i));
        lemma_value_nonneg(s.subrange(0, i), radix);
        assert(digit_of(s[i], radix) || s[i] == '_');
        if s[i] != '_' {
            assert(digits_value(s.subrange(0, i), radix) * radix >= digits_value(s.subrange(0, i), radix)) by (nonlinear_arith)
                requires digits_value(s.subrange(0, i), radix) >= 0, radix >= 2;
        }
    } else {
        assert(s.subrange(0, i) =~= s);
    }
}

proof fn lemma_value_nonneg(s: Seq<char>, radix: u32)
    requires
        2 <= radix,
        all_valid(s, radix),
    ensures
        digits_value(s, radix) >= 0,
    decreases s.len(),
{
    if s.len() > 0 {
        assert(all_valid(s.drop_last(), radix)) by {
            assert forall|i: int| 0 <= i < s.drop_last().len() implies digit_of(#[trigger] s.drop_last()[i], radix) || s.drop_last()[i] == '_' by {
                assert(s.drop_last()[i] == s[i]);
            }
        }
        lemma_value_nonneg(s.drop_last(), radix);
        assert(digit_of(s[s.len() - 1], radix) || s.last() == '_');
        assert(digits_value(s.drop_last(), radix) * radix >= 0) by (nonlinear_arith)
            requires digits_value(s.drop_last(), radix) >= 0, radix >= 2;
    }
}

fn value_of_digit(c: char) -> (r: u16)
    requires
        digit_of(c, 16),
    ensures
        r as int == digit_value(c),
        r < 16,
{
    if '0' <= c && c <= '9' {
        (c as u32 - '0' as u32) as u16
    } else if 'a' <= c && c <= 'f' {
        (c as u32 - 'a' as u32 + 10) as u16
    } else {
        (c as u32 - 'A' as u32 + 10) as u16
    }
}

fn is_digit(c: char, radix: u32) -> (r: bool)
    ensures
        r == digit_of(c, radix),
{
    if radix == 2 {
        c == '0' || c == '1'
    } else if radix == 16 {
        ('0' <= c && c <= '9') || ('a' <= c && c <= 'f') || ('A' <= c && c <= 'F')
    } else {
        '0' <= c && c <= '9'
    }
}

/// Reads `chars[start..end]` as a number in base `radix` (2, 10 or 16) that must fit
/// in six bits.
pub fn u6_from_str_radix(chars: &Vec<char>, start: usize, end: usize, radix: u32) -> (r: Result<u8, IntError>)
    requires
        start <= end <= chars@.len(),
        radix == 2 || radix == 10 || radix == 16,
    ensures
        r == read_digits(chars@.subrange(start as int, end as int), radix),
{
    let ghost s = chars@.subrange(start as int, end as int);
    let mut i: usize = start;
    let mut seen = false;
    while i < end
        invariant
            start <= i <= end <= chars@.len(),
            s == chars@.subrange(start as int, end as int),
            forall|k: int| 0 <= k < i - start ==> digit_of(#[trigger] s[k], radix) || s[k] == '_',
            seen == exists|k: int| 0 <= k < i - start && s[k] != '_',
        decreases end - i,
    {
        let c = chars[i];
        assert(c == s[i - start]);
        if !(is_digit(c, radix) || c == '_') {
            assert(!all_valid(s, radix));
            return Err(IntError::InvalidDigit);
        }
        if c != '_' {
            seen = true;
        }
        i = i + 1;
    }
    if !seen {
        return Err(IntError::Empty);
    }
    let mut value: u16 = 0;
    let mut j: usize = start;
    assert(s.subrange(0, 0) =~= Seq::<char>::empty());
    while j < end
        invariant
            start <= j <= end <= chars@.len(),
            s == chars@.subrange(start as int, end as int),
            all_valid(s, radix),
            radix == 2 || radix == 10 || radix == 16,
            value as int == digits_value(s.subrange(0, j - start), radix),
            value <= 63,
        decreases end - j,
    {
        let c = chars[j];
        assert(c == s[j - start]);
        assert(s.subrange(0, j + 1 - start).drop_last() =~= s.subrange(0, j - start));
        if c != '_' {
            assert(digit_of(c, radix));
            let d = value_of_digit(c);
            assert(value * (radix as u16) <= 1008) by (nonlinear_arith)
                requires value <= 63, radix <= 16;
            let wide: u16 = value * (radix as u16) + d;
            if wide > 63 {
                proof {
                    lemma_value_grows(s, radix, j + 1 - start);
                }
                return Err(IntError::PosOverflow);
            }
            value = wide;
        }
        j = j + 1;
    }
    assert(s.subrange(0, end - start) =~= s);
    Ok(value as u8)
}

} // verus!
