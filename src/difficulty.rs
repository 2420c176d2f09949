//! The difficulty schedule: a level derived from the chain's length alone.

use vstd::prelude::*;

verus! {

/// Number of decimal digits of `x` (zero has one digit).
pub open spec fn decimal_digits(x: nat) -> nat
    decreases x,
{
    if x < 10 {
        1
    } else {
        1 + decimal_digits(x / 10)
    }
}

/// `10` raised to the power `k`.
pub open spec fn pow10(k: nat) -> nat
    decreases k,
{
    if k == 0 {
        1
    } else {
        10 * pow10((k - 1) as nat)
    }
}

/// The difficulty level owed to a chain of `length` blocks: `1` for the
/// empty chain, otherwise `floor(log10(length + 2)) + 1`, which is the number
/// of decimal digits of `length + 2`.
pub open spec fn difficulty_spec(length: nat) -> nat {
    if length == 0 {
        1
    } else {
        decimal_digits(length + 2)
    }
}

proof fn lemma_decimal_digits_monotonic(a: nat, b: nat)
    requires
        a <= b,
    ensures
        decimal_digits(a) <= decimal_digits(b),
    decreases b,
{
    if b >= 10 && a >= 10 {
        lemma_decimal_digits_monotonic(a / 10, b / 10);
    }
}

/// The difficulty level never decreases as the chain grows.
pub proof fn lemma_difficulty_monotonic(n: nat)
    ensures
        difficulty_spec(n) <= difficulty_spec(n + 1),
{
    if n > 0 {
        lemma_decimal_digits_monotonic(n + 2, n + 3);
    }
}

/// Computes the difficulty level for a chain of `length` blocks.
pub fn difficulty_function(length: usize) -> (r: u8)
    ensures
        r as nat == difficulty_spec(length as nat),
{
    if length == 0 {
        return 1;
    }
    let ghost n: nat = (length + 2) as nat;
    let mut x: u128 = length as u128 + 2;
    let mut d: u8 = 1;
    assert(pow10(20) == 100000000000000000000nat) by {
        reveal_with_fuel(pow10, 21);
    }
    while x >= 10
        invariant
            1 <= d <= 20,
            (x as nat) < pow10((21 - d) as nat),
            d - 1 + decimal_digits(x as nat) == decimal_digits(n),
        decreases x,
    {
        let ghost k: nat = (20 - d) as nat;
        assert(pow10((21 - d) as nat) == 10 * pow10(k));
        assert(k > 0) by {
            if k == 0 {
                assert(pow10(0) == 1);
            }
        }
        assert((x / 10) < pow10(k)) by (nonlinear_arith)
            requires
                (x as nat) < 10 * pow10(k),
        ;
        x = x / 10;
        d = d + 1;
    }
    d
}

} // verus!
