//! Decimal numerals.

use vstd::arithmetic::div_mod::lemma_div_denominator;
use vstd::arithmetic::power::{lemma_pow0, lemma_pow_positive, pow};
use vstd::prelude::*;

verus! {

/// The character for a decimal digit.
pub open spec fn digit(d: nat) -> char {
    ('0' as nat + d) as char
}

/// `n` in decimal, without leading zeros.
pub open spec fn numeral(n: nat) -> Seq<char>
    decreases n,
{
    if n < 10 {
        seq![digit(n)]
    } else {
        numeral(n / 10).push(digit(n % 10))
    }
}

/// The number that a string of decimal digits stands for.
pub open spec fn numeral_value(s: Seq<char>) -> nat
    decreases s.len(),
{
    if s.len() == 0 {
        0
    } else {
        numeral_value(s.drop_last()) * 10 + (s.last() as nat - '0' as nat) as nat
    }
}

/// Writes a number in decimal.
pub fn decimal(n: u128) -> (r: String)
    ensures
        r@ == numeral(n as nat),
    decreases n,
{
    let mut s = if n < 10 {
        String::new()
    } else {
        decimal(n / 10)
    };
    let d: u8 = (n % 10) as u8;
    s.push((48 + d) as char);
    s
}

/// A numeral holds nothing but decimal digits, at least one.
pub proof fn numerals_are_digits(n: nat)
    ensures
        numeral(n).len() > 0,
        forall|i: int| 0 <= i < numeral(n).len() ==> '0' <= #[trigger] numeral(n)[i] <= '9',
    decreases n,
{
    if n >= 10 {
        numerals_are_digits(n / 10);
    }
}

/// Reading a numeral gives back the number it was written for.
pub proof fn numerals_are_read_back(n: nat)
    ensures
        numeral_value(numeral(n)) == n,
    decreases n,
{
    reveal_with_fuel(numeral_value, 2);
    if n >= 10 {
        numerals_are_read_back(n / 10);
        assert(numeral(n).drop_last() =~= numeral(n / 10));
    } else {
        assert(numeral(n).drop_last() =~= Seq::<char>::empty());
    }
}

/// A numeral is as long as its number is large: it has a digit for every power of ten that the
/// number reaches, and so no leading zero. Zero has one digit.
pub proof fn numerals_have_no_leading_zero(n: nat)
    ensures
        numeral(n).len() > 0,
        n > 0 ==> pow(10, (numeral(n).len() - 1) as nat) <= n < pow(10, numeral(n).len()),
        n > 0 ==> numeral(n)[0] != '0',
        n == 0 ==> numeral(n).len() == 1,
    decreases n,
{
    reveal(pow);
    lemma_pow0(10);
    if n < 10 {
        assert(pow(10, 1) == 10 * pow(10, 0));
    } else {
        numerals_have_no_leading_zero(n / 10);
        let len = numeral(n / 10).len();
        assert(pow(10, len) == 10 * pow(10, (len - 1) as nat));
        assert(pow(10, len + 1) == 10 * pow(10, len));
        assert(numeral(n)[0] == numeral(n / 10)[0]);
    }
}

/// The character at a place of a numeral is the digit that its number has there: the places stand
/// for the powers of ten, the last for one.
pub proof fn numerals_hold_the_digits_in_their_places(n: nat, i: int)
    requires
        0 <= i < numeral(n).len(),
    ensures
        numeral(n)[i] as int - '0' as int == n as int / pow(10, (numeral(n).len() - 1 - i) as nat)
            % 10,
    decreases n,
{
    reveal(pow);
    lemma_pow0(10);
    if n >= 10 {
        let rest = numeral(n / 10);
        if i < rest.len() {
            let place = (rest.len() - 1 - i) as nat;
            numerals_hold_the_digits_in_their_places(n / 10, i);
            lemma_pow_positive(10, place);
            lemma_div_denominator(n as int, 10, pow(10, place));
            assert(pow(10, place + 1) == 10 * pow(10, place));
            assert(numeral(n)[i] == rest[i]);
            assert((numeral(n).len() - 1 - i) as nat == place + 1);
        }
    }
}

/// What [`decimal`] writes is made of decimal digits, and read as a numeral it is the number.
pub proof fn decimal_writes_the_number(n: u128, r: String)
    requires
        call_ensures(decimal, (n,), r),
    ensures
        r@.len() > 0,
        forall|i: int| 0 <= i < r@.len() ==> '0' <= #[trigger] r@[i] <= '9',
        r@.len() > 1 ==> r@[0] != '0',
        numeral_value(r@) == n,
{
    numerals_are_digits(n as nat);
    numerals_are_read_back(n as nat);
    numerals_have_no_leading_zero(n as nat);
}

/// Different numbers have different numerals.
pub proof fn numerals_are_distinct(m: nat, n: nat)
    requires
        numeral(m) == numeral(n),
    ensures
        m == n,
{
    numerals_are_read_back(m);
    numerals_are_read_back(n);
}

} // verus!
