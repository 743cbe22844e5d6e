//! Small string-building helpers: decimal rendering of integers, with
//! exact sequence-of-characters specifications.

use vstd::prelude::*;

verus! {

/// Relies on `String::push` from std: appends exactly the given character
/// to the end of the string. vstd specifies no contract for it.
pub assume_specification[ String::push ](s: &mut String, c: char)
    ensures
        final(s)@ == old(s)@.push(c),
;

/// The character for a single decimal digit `d` (`0 <= d <= 9`).
pub open spec fn digit_char_s(d: int) -> char {
    ((d + 48) as u8) as char
}

/// Decimal rendering of a nonnegative integer, most significant digit first.
pub open spec fn dec_str_s(n: nat) -> Seq<char>
    decreases n,
{
    if n < 10 {
        seq![digit_char_s(n as int)]
    } else {
        dec_str_s(n / 10).push(digit_char_s((n % 10) as int))
    }
}

/// Decimal rendering of a signed integer: a leading `-` for negatives.
pub open spec fn dec_str_signed_s(v: int) -> Seq<char> {
    if v < 0 {
        seq!['-'] + dec_str_s((-v) as nat)
    } else {
        dec_str_s(v as nat)
    }
}

/// Renders `n` in decimal.
pub fn u64_to_dec(n: u64) -> (s: String)
    ensures
        s@ == dec_str_s(n as nat),
    decreases n,
{
    if n < 10 {
        let mut s = String::new();
        let d: u8 = (n % 10) as u8;
        s.push((48 + d) as char);
        assert(s@ =~= seq![digit_char_s(n as int)]);
        s
    } else {
        let mut s = u64_to_dec(n / 10);
        let d: u8 = (n % 10) as u8;
        s.push((48 + d) as char);
        s
    }
}

/// Renders `v` in decimal, with a `-` sign for negative values.
pub fn i64_to_dec(v: i64) -> (s: String)
    ensures
        s@ == dec_str_signed_s(v as int),
{
    if v >= 0 {
        u64_to_dec(v as u64)
    } else {
        let mag: u64 = if v == i64::MIN {
            9223372036854775808u64
        } else {
            (-v) as u64
        };
        assert(mag == -(v as int));
        let mut s = String::from_str("-");
        let digits = u64_to_dec(mag);
        s.append(digits.as_str());
        proof {
            reveal_strlit("-");
            assert(s@ =~= seq!['-'] + dec_str_s(mag as nat));
        }
        s
    }
}

} // verus!
