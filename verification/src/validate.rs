//! Validation of externally supplied configuration values: a numeric
//! row-count argument and a pattern argument, each checked before the
//! engine runs.

use vstd::prelude::*;
use crate::trigger::Trigger;
use crate::trigger::regex_ok;

verus! {

/// Whether `c` is an ASCII decimal digit.
pub open spec fn is_digit(c: char) -> bool {
    '0' as int <= c as int <= '9' as int
}

/// The numeric value of a decimal digit.
pub open spec fn digit_val(c: char) -> int {
    c as int - '0' as int
}

/// Whether every character of `s` is an ASCII decimal digit.
pub open spec fn all_digits(s: Seq<char>) -> bool {
    forall|i: int| 0 <= i < s.len() ==> is_digit(s[i])
}

/// The value of a sequence of decimal digits, most significant first.
pub open spec fn digits_value(s: Seq<char>) -> int
    decreases s.len(),
{
    if s.len() == 0 {
        0
    } else {
        digits_value(s.drop_last()) * 10 + digit_val(s.last())
    }
}

/// The digits of a decimal text: the text with an optional leading plus
/// sign removed.
pub open spec fn u16_digits(s: Seq<char>) -> Seq<char> {
    if s.len() > 0 && s[0] == '+' {
        s.drop_first()
    } else {
        s
    }
}

/// Whether `s` is the decimal text of a value that fits in sixteen
/// unsigned bits: an optional plus sign, then at least one digit, the
/// value at most `u16::MAX`. This is exactly what `str::parse::<u16>`
/// accepts.
pub open spec fn is_u16_text(s: Seq<char>) -> bool {
    let d = u16_digits(s);
    d.len() > 0 && all_digits(d) && digits_value(d) <= u16::MAX
}

/// Appending one digit multiplies the value by ten and adds the digit.
proof fn lemma_digits_value_push(s: Seq<char>, c: char)
    ensures
        digits_value(s.push(c)) == digits_value(s) * 10 + digit_val(c),
{
    assert(s.push(c).drop_last() =~= s);
    assert(s.push(c).last() == c);
}

/// Validate a row-count argument: accepted exactly when it is the decimal
/// text of a value that fits in sixteen unsigned bits.
pub fn u16_validator(s: String) -> (r: Result<(), String>)
    ensures
        r is Ok <==> is_u16_text(s@),
        r matches Err(m) ==> m@ == "Argument must be a non-negative integer"@,
{
    let st = s.as_str();
    let n = st.unicode_len();
    let start: usize = if n > 0 && st.get_char(0) == '+' {
        1
    } else {
        0
    };
    proof {
        assert(u16_digits(s@) =~= s@.subrange(start as int, n as int));
    }
    if n == start {
        return Err(String::from_str("Argument must be a non-negative integer"));
    }
    let mut i: usize = start;
    let mut val: u32 = 0;
    let mut too_big = false;
    while i < n
        invariant
            start <= i <= n,
            n == s@.len(),
            st@ == s@,
            u16_digits(s@) == s@.subrange(start as int, n as int),
            forall|j: int| start <= j < i ==> is_digit(s@[j]),
            !too_big ==> val <= u16::MAX && val == digits_value(s@.subrange(start as int, i as int)),
            too_big ==> digits_value(s@.subrange(start as int, i as int)) > u16::MAX,
        decreases n - i,
    {
        let c = st.get_char(i);
        let cu = c as u32;
        if !(48 <= cu && cu <= 57) {
            proof {
                assert(!is_digit(s@[i as int]));
                assert(u16_digits(s@)[i - start] == s@[i as int]);
                assert(!all_digits(u16_digits(s@)));
            }
            return Err(String::from_str("Argument must be a non-negative integer"));
        }
        proof {
            assert(s@.subrange(start as int, i + 1) =~= s@.subrange(start as int, i as int).push(
                s@[i as int],
            ));
            lemma_digits_value_push(s@.subrange(start as int, i as int), s@[i as int]);
        }
        if !too_big {
            let d = cu - 48;
            let nv = val * 10 + d;
            if nv > 65535 {
                too_big = true;
            } else {
                val = nv;
            }
        }
        i = i + 1;
    }
    if too_big {
        Err(String::from_str("Argument must be a non-negative integer"))
    } else {
        Ok(())
    }
}

/// Validate a pattern argument: accepted exactly on valid
/// regular-expression syntax.
pub fn regex_validator(s: String) -> (r: Result<(), String>)
    ensures
        r is Ok <==> regex_ok(s@),
        r matches Err(m) ==> m@ == "Invalid regular expression"@,
{
    match Trigger::new(s.as_str()) {
        Some(_) => Ok(()),
        None => Err(String::from_str("Invalid regular expression")),
    }
}

} // verus!
