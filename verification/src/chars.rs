//! Small executable helpers for building and comparing strings, together
//! with the spec-level decimal formatting they are proved against.

use vstd::prelude::*;

verus! {

/// Relies on String::with_capacity: an empty string, with room reserved.
#[verifier::external_body]
pub fn string_with_capacity(capacity: usize) -> (s: String)
    ensures
        s@ == Seq::<char>::empty(),
{
    String::with_capacity(capacity)
}

/// Relies on String::push: appends exactly the given character.
#[verifier::external_body]
pub fn push_char(s: &mut String, c: char)
    ensures
        final(s)@ == old(s)@.push(c),
{
    s.push(c);
}

/// A one-character string.
pub fn char_to_string(c: char) -> (r: String)
    ensures
        r@ == seq![c],
{
    let mut s = String::new();
    push_char(&mut s, c);
    proof {
        assert(s@ =~= seq![c]);
    }
    s
}

/// Character-for-character string equality, phrased over the views.
pub fn str_eq(a: &str, b: &str) -> (r: bool)
    ensures
        r == (a@ == b@),
{
    let a_len = a.unicode_len();
    let b_len = b.unicode_len();
    if a_len != b_len {
        proof {
            assert(a@ != b@);
        }
        return false;
    }
    let mut i: usize = 0;
    while i < a_len
        invariant
            i <= a_len,
            a_len == a@.len(),
            a_len == b@.len(),
            forall|j: int| 0 <= j < i ==> a@[j] == b@[j],
        decreases a_len - i,
    {
        if a.get_char(i) != b.get_char(i) {
            return false;
        }
        i = i + 1;
    }
    proof {
        assert(a@ =~= b@);
    }
    true
}

/// The decimal digit character for a value below ten.
pub open spec fn digit_char(d: int) -> char {
    if d == 0 {
        '0'
    } else if d == 1 {
        '1'
    } else if d == 2 {
        '2'
    } else if d == 3 {
        '3'
    } else if d == 4 {
        '4'
    } else if d == 5 {
        '5'
    } else if d == 6 {
        '6'
    } else if d == 7 {
        '7'
    } else if d == 8 {
        '8'
    } else {
        '9'
    }
}

/// The decimal representation of a natural number, most significant digit
/// first, with no leading zeros (a single `'0'` for zero).
pub open spec fn spec_nat_digits(n: nat) -> Seq<char>
    decreases n,
{
    if n < 10 {
        seq![digit_char(n as int)]
    } else {
        spec_nat_digits(n / 10) + seq![digit_char((n % 10) as int)]
    }
}

/// The decimal representation of a signed number: a `'-'` sign for negative
/// values, then the digits of the magnitude.
pub open spec fn spec_int_digits(n: int) -> Seq<char> {
    if n < 0 {
        seq!['-'] + spec_nat_digits((-n) as nat)
    } else {
        spec_nat_digits(n as nat)
    }
}

fn digit_to_char(d: u64) -> (c: char)
    requires
        d < 10,
    ensures
        c == digit_char(d as int),
{
    if d == 0 {
        '0'
    } else if d == 1 {
        '1'
    } else if d == 2 {
        '2'
    } else if d == 3 {
        '3'
    } else if d == 4 {
        '4'
    } else if d == 5 {
        '5'
    } else if d == 6 {
        '6'
    } else if d == 7 {
        '7'
    } else if d == 8 {
        '8'
    } else {
        '9'
    }
}

/// Formats a natural number in decimal.
pub fn u64_to_string(n: u64) -> (s: String)
    ensures
        s@ == spec_nat_digits(n as nat),
{
    let mut digits: Vec<char> = Vec::new();
    let mut rest: u64 = n;
    loop
        invariant_except_break
            spec_nat_digits(n as nat) == spec_nat_digits(rest as nat) + digits@.reverse(),
        ensures
            spec_nat_digits(n as nat) == digits@.reverse(),
        decreases rest,
    {
        let d = rest % 10;
        let c = digit_to_char(d);
        proof {
            let ghost before = digits@;
            assert(before.push(c).reverse() =~= seq![c] + before.reverse());
        }
        digits.push(c);
        if rest < 10 {
            proof {
                assert(spec_nat_digits(rest as nat) == seq![c]);
                assert(spec_nat_digits(n as nat) =~= digits@.reverse());
            }
            break;
        }
        proof {
            assert(spec_nat_digits(rest as nat) == spec_nat_digits((rest / 10) as nat) + seq![c]);
            assert(spec_nat_digits(n as nat) =~= spec_nat_digits((rest / 10) as nat)
                + digits@.reverse());
        }
        rest = rest / 10;
    }
    let mut s = String::new();
    let mut i: usize = digits.len();
    while i > 0
        invariant
            i <= digits@.len(),
            s@ == digits@.reverse().take(digits@.len() - i),
        decreases i,
    {
        i = i - 1;
        push_char(&mut s, digits[i]);
        proof {
            let ghost r = digits@.reverse();
            assert(r.take(digits@.len() - i) =~= r.take(digits@.len() - (i + 1)).push(
                digits@[i as int],
            ));
        }
    }
    proof {
        assert(digits@.reverse().take(digits@.len() - 0) =~= digits@.reverse());
    }
    s
}

/// Formats a signed number in decimal, with a leading minus sign when
/// negative.
pub fn i32_to_string(n: i32) -> (s: String)
    ensures
        s@ == spec_int_digits(n as int),
{
    if n >= 0 {
        u64_to_string(n as u64)
    } else {
        let wide: i64 = n as i64;
        let magnitude: u64 = (-wide) as u64;
        let mut s = char_to_string('-');
        let digits = u64_to_string(magnitude);
        s.append(digits.as_str());
        proof {
            assert(s@ =~= spec_int_digits(n as int));
        }
        s
    }
}

/// A number zero-padded to a minimum width of two digits: values below ten
/// get a leading zero, larger values keep their plain decimal digits.
pub open spec fn spec_two_digits(n: int) -> Seq<char> {
    if 0 <= n < 10 {
        seq!['0', digit_char(n)]
    } else if n >= 0 {
        spec_nat_digits(n as nat)
    } else {
        Seq::empty()
    }
}

/// Formats a number zero-padded to a minimum width of two digits.
pub fn two_digit_string(n: u8) -> (s: String)
    ensures
        s@ == spec_two_digits(n as int),
{
    if n < 10 {
        let mut s = char_to_string('0');
        push_char(&mut s, digit_to_char(n as u64));
        proof {
            assert(s@ =~= spec_two_digits(n as int));
        }
        s
    } else {
        u64_to_string(n as u64)
    }
}

} // verus!
