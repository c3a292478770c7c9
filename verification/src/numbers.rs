//! Decimal numerals. The upstream API hands block numbers and gas values as
//! decimal strings; this module parses them into `u32` against an exact
//! character-level specification.

use vstd::prelude::*;

verus! {

/// Whether `c` is an ASCII decimal digit.
pub open spec fn is_digit(c: char) -> bool {
    '0' <= c && c <= '9'
}

/// The numeric value of a digit character.
pub open spec fn digit_val(c: char) -> int {
    c as int - '0' as int
}

/// Whether every character of `s` is a decimal digit.
pub open spec fn all_digits(s: Seq<char>) -> bool {
    forall|i: int| 0 <= i < s.len() ==> is_digit(#[trigger] s[i])
}

/// The value of `s` read as a base-10 numeral, most significant digit first.
pub open spec fn dec_val(s: Seq<char>) -> int
    decreases s.len(),
{
    if s.len() == 0 {
        0
    } else {
        dec_val(s.drop_last()) * 10 + digit_val(s.last())
    }
}

/// Whether `s` is a numeral that a `u32` can hold: non-empty, digits only,
/// and in range.
pub open spec fn is_u32_numeral(s: Seq<char>) -> bool {
    s.len() > 0 && all_digits(s) && dec_val(s) <= u32::MAX
}

/// A numeral of digits has a non-negative value.
pub proof fn lemma_dec_val_nonneg(s: Seq<char>)
    requires
        all_digits(s),
    ensures
        dec_val(s) >= 0,
    decreases s.len(),
{
    if s.len() > 0 {
        assert(all_digits(s.drop_last())) by {
            assert(forall|i: int|
                0 <= i < s.len() - 1 ==> is_digit(#[trigger] s.drop_last()[i]) == is_digit(s[i]));
        }
        lemma_dec_val_nonneg(s.drop_last());
    }
}

/// Reading one more digit multiplies the prefix value by ten and adds the
/// digit.
pub proof fn lemma_dec_val_take_step(s: Seq<char>, i: int)
    requires
        0 <= i < s.len(),
    ensures
        dec_val(s.take(i + 1)) == dec_val(s.take(i)) * 10 + digit_val(s[i]),
{
    assert(s.take(i + 1).drop_last() =~= s.take(i));
    assert(s.take(i + 1).last() == s[i]);
}

/// The value of a prefix never exceeds the value of the whole numeral.
pub proof fn lemma_dec_val_prefix_le(s: Seq<char>, i: int)
    requires
        all_digits(s),
        0 <= i <= s.len(),
    ensures
        dec_val(s.take(i)) <= dec_val(s),
    decreases s.len() - i,
{
    if i == s.len() {
        assert(s.take(i) =~= s);
    } else {
        lemma_dec_val_take_step(s, i);
        assert(all_digits(s.take(i))) by {
            assert(forall|j: int|
                0 <= j < i ==> is_digit(#[trigger] s.take(i)[j]) == is_digit(s[j]));
        }
        lemma_dec_val_nonneg(s.take(i));
        assert(dec_val(s.take(i)) * 10 >= dec_val(s.take(i))) by (nonlinear_arith)
            requires
                dec_val(s.take(i)) >= 0,
        ;
        lemma_dec_val_prefix_le(s, i + 1);
    }
}

/// Parses `s` as a base-10 `u32`. Returns the value exactly when `s` is a
/// non-empty all-digit string whose value fits in a `u32`; returns `None` on
/// an empty string, a non-digit character, or a value out of range.
pub fn parse_u32_numeral(s: &str) -> (r: Option<u32>)
    ensures
        r is Some <==> is_u32_numeral(s@),
        r is Some ==> r->0 == dec_val(s@),
{
    if !s.is_ascii() {
        proof {
            assert(!all_digits(s@)) by {
                if all_digits(s@) {
                    assert forall|i: int| 0 <= i < s@.len() implies '\0' <= #[trigger] s@[i]
                        <= '\u{7f}' by {
                        assert(is_digit(s@[i]));
                    }
                }
            }
        }
        return None;
    }
    let b: &[u8] = s.as_bytes();
    proof {
        vstd::string::is_ascii_spec_bytes(s);
    }
    if b.len() == 0 {
        return None;
    }
    let ghost cs: Seq<char> = s@;
    let mut i: usize = 0;
    let mut val: u32 = 0;
    while i < b.len()
        invariant
            0 <= i <= b.len(),
            b@.len() == cs.len(),
            forall|j: int| 0 <= j < cs.len() ==> b@[j] == #[trigger] cs[j] as u8,
            forall|j: int| 0 <= j < cs.len() ==> '\0' <= #[trigger] cs[j] <= '\u{7f}',
            all_digits(cs.take(i as int)),
            val == dec_val(cs.take(i as int)),
            cs == s@,
        decreases b.len() - i,
    {
        let c: u8 = b[i];
        if c < 48 || c > 57 {
            proof {
                assert(cs[i as int] as u8 == c);
                assert(!is_digit(cs[i as int]));
            }
            return None;
        }
        let d: u32 = (c - 48) as u32;
        proof {
            assert(is_digit(cs[i as int]));
            assert(digit_val(cs[i as int]) == d);
            lemma_dec_val_take_step(cs, i as int);
        }
        let t: u64 = val as u64 * 10 + d as u64;
        if t > u32::MAX as u64 {
            proof {
                assert(all_digits(cs.take(i + 1))) by {
                    assert(forall|j: int|
                        0 <= j < i + 1 ==> is_digit(#[trigger] cs.take(i + 1)[j]) == is_digit(
                            cs[j],
                        ));
                }
                assert(dec_val(cs.take(i + 1)) > u32::MAX);
                if all_digits(cs) {
                    lemma_dec_val_prefix_le(cs, i + 1);
                }
            }
            return None;
        }
        val = t as u32;
        i = i + 1;
        proof {
            assert(all_digits(cs.take(i as int))) by {
                assert(forall|j: int|
                    0 <= j < i ==> is_digit(#[trigger] cs.take(i as int)[j]) == is_digit(cs[j]));
            }
        }
    }
    proof {
        assert(cs.take(i as int) =~= cs);
    }
    Some(val)
}

} // verus!
