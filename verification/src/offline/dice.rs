//! Keys from dice: how many throws make a key.

use vstd::prelude::*;
use crate::common::error::Error;

verus! {

/// `base` to the power `n`.
pub open spec fn spec_power(base: nat, n: nat) -> nat
    decreases n,
{
    if n == 0 {
        1
    } else {
        base * spec_power(base, (n - 1) as nat)
    }
}

/// How many keys there are: `2^256`.
pub open spec fn spec_key_space() -> nat {
    0x1_0000_0000_0000_0000_0000_0000_0000_0000_0000_0000_0000_0000_0000_0000_0000_0000nat
}

/// So many throws of a die with so many sides have at least as many outcomes
/// as there are keys: the throws hold 256 bits of entropy.
pub open spec fn spec_enough_throws(sides: nat, throws: nat) -> bool {
    spec_power(sides, throws) >= spec_key_space()
}

/// Powers of a sum of exponents.
pub proof fn lemma_power_add(base: nat, a: nat, b: nat)
    ensures
        spec_power(base, a + b) == spec_power(base, a) * spec_power(base, b),
    decreases a,
{
    if a == 0 {
        assert(spec_power(base, a) == 1);
        assert(1 * spec_power(base, b) == spec_power(base, b));
    } else {
        lemma_power_add(base, (a - 1) as nat, b);
        let x = spec_power(base, (a - 1) as nat);
        let y = spec_power(base, b);
        assert(spec_power(base, a + b) == base * spec_power(base, (a + b - 1) as nat));
        assert(base * (x * y) == (base * x) * y) by (nonlinear_arith);
    }
}

/// The number of keys is two to the power 256.
pub proof fn lemma_key_space_is_power_of_two()
    ensures
        spec_key_space() == spec_power(2, 256),
{
    reveal_with_fuel(spec_power, 9);
    assert(spec_power(2, 8) == 0x100);
    lemma_power_add(2, 8, 8);
    assert(spec_power(2, 16) == 0x1_0000);
    lemma_power_add(2, 16, 16);
    assert(spec_power(2, 32) == 0x1_0000_0000);
    lemma_power_add(2, 32, 32);
    assert(spec_power(2, 64) == 0x1_0000_0000_0000_0000);
    lemma_power_add(2, 64, 64);
    assert(spec_power(2, 128) == 0x1_0000_0000_0000_0000_0000_0000_0000_0000int);
    lemma_power_add(2, 128, 128);
}

/// More throws are enough where fewer are.
pub proof fn lemma_enough_throws_monotonic(sides: nat, fewer: nat, more: nat)
    requires
        fewer <= more,
        spec_enough_throws(sides, fewer),
    ensures
        spec_enough_throws(sides, more),
    decreases more - fewer,
{
    if fewer < more {
        lemma_enough_throws_monotonic(sides, fewer, (more - 1) as nat);
        let p = spec_power(sides, (more - 1) as nat);
        assert(sides >= 1) by {
            if sides == 0 {
                lemma_power_of_small(sides, fewer);
            }
        }
        assert(sides * p >= p) by (nonlinear_arith)
            requires
                sides >= 1,
        ;
    }
}

/// A die with fewer than two sides never gives a key.
pub proof fn lemma_power_of_small(sides: nat, throws: nat)
    requires
        sides < 2,
    ensures
        spec_power(sides, throws) <= 1,
        !spec_enough_throws(sides, throws),
    decreases throws,
{
    if throws > 0 {
        lemma_power_of_small(sides, (throws - 1) as nat);
        let p = spec_power(sides, (throws - 1) as nat);
        assert(sides * p <= 1) by (nonlinear_arith)
            requires
                sides < 2,
                p <= 1,
        ;
    }
}

/// A digit times the sides of a die leaves room for a carry in 128 bits.
proof fn lemma_digit_product(digit: u64, sides: u32)
    ensures
        digit * sides <= 0xFFFF_FFFF_FFFF_FFFF * 0xFFFF_FFFF,
{
    assert(digit * sides <= 0xFFFF_FFFF_FFFF_FFFF * 0xFFFF_FFFF) by (nonlinear_arith)
        requires
            digit <= 0xFFFF_FFFF_FFFF_FFFF,
            sides <= 0xFFFF_FFFF,
    ;
}

/// The number that four 64-bit digits spell, the lowest first.
pub open spec fn spec_digits(d0: u64, d1: u64, d2: u64, d3: u64) -> nat {
    (d0 + d1 * 0x1_0000_0000_0000_0000 + d2 * 0x1_0000_0000_0000_0000_0000_0000_0000_0000int + d3
        * 0x1_0000_0000_0000_0000_0000_0000_0000_0000_0000_0000_0000_0000int) as nat
}

/// Whether the throws of a die hold enough entropy for a key: the die's
/// sides to the power of the number of throws is `2^256` or more. Fails with
/// `InsufficientEntropy` if not.
pub fn check_dice(throws: usize, sides: u32) -> (result: Result<(), Error>)
    ensures
        match result {
            Ok(_) => spec_enough_throws(sides as nat, throws as nat),
            Err(e) => e is InsufficientEntropy && !spec_enough_throws(sides as nat, throws as nat),
        },
{
    if sides < 2 {
        proof {
            lemma_power_of_small(sides as nat, throws as nat);
        }
        return Err(Error::InsufficientEntropy);
    }
    let s: u128 = sides as u128;
    let mut d0: u64 = 1;
    let mut d1: u64 = 0;
    let mut d2: u64 = 0;
    let mut d3: u64 = 0;
    let mut n: usize = 0;
    while n < throws
        invariant
            n <= throws,
            s == sides,
            sides >= 2,
            spec_digits(d0, d1, d2, d3) == spec_power(sides as nat, n as nat),
        decreases throws - n,
    {
        proof {
            lemma_digit_product(d0, sides);
            lemma_digit_product(d1, sides);
            lemma_digit_product(d2, sides);
            lemma_digit_product(d3, sides);
        }
        let t0: u128 = d0 as u128 * s;
        let t1: u128 = d1 as u128 * s + t0 / 0x1_0000_0000_0000_0000;
        let t2: u128 = d2 as u128 * s + t1 / 0x1_0000_0000_0000_0000;
        let t3: u128 = d3 as u128 * s + t2 / 0x1_0000_0000_0000_0000;
        let carry: u128 = t3 / 0x1_0000_0000_0000_0000;
        let e0: u64 = (t0 % 0x1_0000_0000_0000_0000) as u64;
        let e1: u64 = (t1 % 0x1_0000_0000_0000_0000) as u64;
        let e2: u64 = (t2 % 0x1_0000_0000_0000_0000) as u64;
        let e3: u64 = (t3 % 0x1_0000_0000_0000_0000) as u64;
        proof {
            let p0 = d0 as int * s as int;
            let p1 = d1 as int * s as int;
            let p2 = d2 as int * s as int;
            let p3 = d3 as int * s as int;
            assert(spec_digits(d0, d1, d2, d3) * s == p0 + p1 * 0x1_0000_0000_0000_0000 + p2
                * 0x1_0000_0000_0000_0000_0000_0000_0000_0000int + p3
                * 0x1_0000_0000_0000_0000_0000_0000_0000_0000_0000_0000_0000_0000int)
                by (nonlinear_arith)
                requires
                    p0 == d0 as int * s as int,
                    p1 == d1 as int * s as int,
                    p2 == d2 as int * s as int,
                    p3 == d3 as int * s as int,
            ;
            assert(spec_digits(e0, e1, e2, e3) + carry * spec_key_space() == spec_digits(
                d0,
                d1,
                d2,
                d3,
            ) * s);
            assert(spec_power(sides as nat, (n + 1) as nat) == sides * spec_power(
                sides as nat,
                n as nat,
            ));
            assert(sides * spec_power(sides as nat, n as nat) == spec_power(sides as nat, n as nat)
                * s) by (nonlinear_arith)
                requires
                    s == sides,
            ;
        }
        if carry != 0 {
            proof {
                assert(carry * spec_key_space() >= spec_key_space()) by (nonlinear_arith)
                    requires
                        carry >= 1,
                ;
                lemma_enough_throws_monotonic(sides as nat, (n + 1) as nat, throws as nat);
            }
            return Ok(());
        }
        d0 = e0;
        d1 = e1;
        d2 = e2;
        d3 = e3;
        n = n + 1;
    }
    Err(Error::InsufficientEntropy)
}

} // verus!
