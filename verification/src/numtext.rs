//! Decimal rendering of the integer column widths, with a proof that the
//! rendering determines the value: the round-trip witness for the `number`
//! tagged families.

use vstd::prelude::*;
use crate::textutil::push_char;

verus! {

/// The character of one decimal digit.
pub open spec fn spec_digit_char(d: int) -> char {
    if d == 0 {
        '0'
    } else if d == 1 {
        '1'
    } else if d == 2 {
        '2'
    } else if d == 3 {
        '3'
    } else if d == 4 {
        '4'
    } else if d == 5 {
        '5'
    } else if d == 6 {
        '6'
    } else if d == 7 {
        '7'
    } else if d == 8 {
        '8'
    } else {
        '9'
    }
}

/// The decimal text of a natural number, most significant digit first, no
/// leading zero except for zero itself.
pub open spec fn spec_udec(n: nat) -> Seq<char>
    decreases n,
{
    if n < 10 {
        seq![spec_digit_char(n as int)]
    } else {
        spec_udec(n / 10).push(spec_digit_char((n % 10) as int))
    }
}

/// The decimal text of an integer: a minus sign before the magnitude for
/// negative values.
pub open spec fn spec_idec(n: int) -> Seq<char> {
    if n < 0 {
        seq!['-'] + spec_udec((-n) as nat)
    } else {
        spec_udec(n as nat)
    }
}

/// Maps a digit below ten to its character.
fn digit_char(d: u64) -> (r: char)
    requires
        d < 10,
    ensures
        r == spec_digit_char(d as int),
{
    match d {
        0 => '0',
        1 => '1',
        2 => '2',
        3 => '3',
        4 => '4',
        5 => '5',
        6 => '6',
        7 => '7',
        8 => '8',
        _ => '9',
    }
}

/// Renders an unsigned value in decimal.
pub fn u64_text(n: u64) -> (r: String)
    ensures
        r@ == spec_udec(n as nat),
{
    let mut digits: Vec<char> = Vec::new();
    let mut m: u64 = n;
    proof {
        assert(spec_udec(n as nat) =~= spec_udec(m as nat) + digits@.reverse());
    }
    while m >= 10
        invariant
            spec_udec(n as nat) == spec_udec(m as nat) + digits@.reverse(),
        decreases m,
    {
        let d: u64 = m % 10;
        let ghost before: Seq<char> = digits@;
        digits.push(digit_char(d));
        proof {
            assert(spec_udec(m as nat) == spec_udec((m / 10) as nat).push(
                spec_digit_char((m % 10) as int),
            ));
            assert(digits@.reverse() =~= seq![spec_digit_char(d as int)] + before.reverse());
            assert(spec_udec((m / 10) as nat) + digits@.reverse() =~= spec_udec(m as nat)
                + before.reverse());
        }
        m = m / 10;
    }
    let ghost low: Seq<char> = digits@;
    digits.push(digit_char(m));
    proof {
        assert(spec_udec(m as nat) == seq![spec_digit_char(m as int)]);
        assert(digits@.reverse() =~= seq![spec_digit_char(m as int)] + low.reverse());
        assert(digits@.reverse() =~= spec_udec(n as nat));
    }
    let mut out = String::new();
    let count: usize = digits.len();
    let mut i: usize = count;
    proof {
        assert(out@ =~= digits@.subrange(i as int, count as int).reverse());
    }
    while i > 0
        invariant
            i <= count,
            count == digits@.len(),
            out@ == digits@.subrange(i as int, count as int).reverse(),
            digits@.reverse() == spec_udec(n as nat),
        decreases i,
    {
        i = i - 1;
        push_char(&mut out, digits[i]);
        proof {
            assert(out@ =~= digits@.subrange(i as int, count as int).reverse());
        }
    }
    proof {
        assert(digits@.subrange(0, count as int) =~= digits@);
    }
    out
}

/// Renders a signed value in decimal.
pub fn i64_text(n: i64) -> (r: String)
    ensures
        r@ == spec_idec(n as int),
{
    if n >= 0 {
        u64_text(n as u64)
    } else {
        let magnitude: u64 = if n == i64::MIN {
            9223372036854775808u64
        } else {
            (-n) as u64
        };
        let mut out = String::from_str("-");
        proof {
            reveal_strlit("-");
        }
        let rest = u64_text(magnitude);
        out.append(rest.as_str());
        proof {
            assert(out@ =~= seq!['-'] + spec_udec((-(n as int)) as nat));
        }
        out
    }
}

/// The codepoint of a digit character, which makes the digit characters
/// pairwise distinct.
pub proof fn lemma_digit_char_code(d: int)
    requires
        0 <= d < 10,
    ensures
        spec_digit_char(d) as u32 == 48 + d,
{
}

/// Every character of a decimal rendering is a digit; in particular none is a
/// minus sign.
pub proof fn lemma_udec_digits(n: nat)
    ensures
        spec_udec(n).len() >= 1,
        forall|i: int|
            0 <= i < spec_udec(n).len() ==> 48 <= (#[trigger] spec_udec(n)[i]) as u32
                && spec_udec(n)[i] as u32 <= 57,
    decreases n,
{
    if n >= 10 {
        lemma_udec_digits(n / 10);
    }
}

/// Every character of a signed decimal rendering is the minus sign or a
/// digit.
pub proof fn lemma_idec_chars(n: int)
    ensures
        forall|j: int|
            0 <= j < spec_idec(n).len() ==> ((#[trigger] spec_idec(n)[j]) == '-' || (48 <= spec_idec(
                n,
            )[j] as u32 && spec_idec(n)[j] as u32 <= 57)),
{
    lemma_udec_digits(n as nat);
    lemma_udec_digits((-n) as nat);
}

/// The decimal rendering of a natural number determines the number: two equal
/// renderings come from equal values.
pub proof fn lemma_udec_injective(a: nat, b: nat)
    requires
        spec_udec(a) == spec_udec(b),
    ensures
        a == b,
    decreases a,
{
    lemma_udec_digits(a / 10);
    lemma_udec_digits(b / 10);
    if a < 10 && b < 10 {
        assert(spec_udec(a) == seq![spec_digit_char(a as int)]);
        assert(spec_udec(b) == seq![spec_digit_char(b as int)]);
        assert(seq![spec_digit_char(a as int)][0] == spec_digit_char(a as int));
        assert(seq![spec_digit_char(b as int)][0] == spec_digit_char(b as int));
        assert(spec_digit_char(a as int) == spec_digit_char(b as int));
        lemma_digit_char_code(a as int);
        lemma_digit_char_code(b as int);
        assert(a == b);
    } else if a < 10 && b >= 10 {
        assert(spec_udec(a).len() == 1);
        assert(spec_udec(b).len() == spec_udec(b / 10).len() + 1);
    } else if a >= 10 && b < 10 {
        assert(spec_udec(b).len() == 1);
        assert(spec_udec(a).len() == spec_udec(a / 10).len() + 1);
    } else {
        assert(spec_udec(a).last() == spec_digit_char((a % 10) as int));
        assert(spec_udec(b).last() == spec_digit_char((b % 10) as int));
        lemma_digit_char_code((a % 10) as int);
        lemma_digit_char_code((b % 10) as int);
        assert(a % 10 == b % 10);
        assert(spec_udec(a / 10) =~= spec_udec(a).drop_last());
        assert(spec_udec(b / 10) =~= spec_udec(b).drop_last());
        lemma_udec_injective(a / 10, b / 10);
        vstd::arithmetic::div_mod::lemma_fundamental_div_mod(a as int, 10);
        vstd::arithmetic::div_mod::lemma_fundamental_div_mod(b as int, 10);
        assert(a == b);
    }
}

/// The decimal rendering of a signed value determines the value.
pub proof fn lemma_idec_injective(a: int, b: int)
    requires
        spec_idec(a) == spec_idec(b),
    ensures
        a == b,
{
    lemma_udec_digits((-a) as nat);
    lemma_udec_digits((-b) as nat);
    lemma_udec_digits(a as nat);
    lemma_udec_digits(b as nat);
    if a < 0 && b < 0 {
        assert(spec_udec((-a) as nat) =~= spec_idec(a).drop_first());
        assert(spec_udec((-b) as nat) =~= spec_idec(b).drop_first());
        lemma_udec_injective((-a) as nat, (-b) as nat);
    } else if a < 0 && b >= 0 {
        assert(spec_idec(a)[0] == '-');
        assert(spec_idec(b)[0] != '-');
    } else if a >= 0 && b < 0 {
        assert(spec_idec(b)[0] == '-');
        assert(spec_idec(a)[0] != '-');
    } else {
        lemma_udec_injective(a as nat, b as nat);
    }
}

} // verus!
