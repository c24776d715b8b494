//! Primality testing and prime factorization by trial division: the
//! factor list multiplies back to the input, is sorted, and holds prime
//! numbers only.

use vstd::prelude::*;

use vstd::arithmetic::div_mod::{
    lemma_fundamental_div_mod, lemma_mod_multiples_basic, lemma_mod_self_0,
};

verus! {

/// Whether `n` is prime: at least two, with no divisor strictly between
/// one and itself.
pub open spec fn spec_is_prime(n: int) -> bool {
    n >= 2 && forall|d: int| 2 <= d < n ==> #[trigger] (n % d) != 0
}

/// The product of a sequence of factors.
pub open spec fn spec_product(s: Seq<u32>) -> int
    decreases s.len(),
{
    if s.len() == 0 {
        1
    } else {
        spec_product(s.drop_last()) * s.last()
    }
}

/// Divisibility carries through a middle term.
proof fn lemma_divides_transitive(a: int, b: int, c: int)
    requires
        a >= 1,
        b >= 1,
        c >= 1,
        b % c == 0,
        a % b == 0,
    ensures
        a % c == 0,
{
    lemma_fundamental_div_mod(a, b);
    lemma_fundamental_div_mod(b, c);
    let q1 = a / b;
    let q2 = b / c;
    assert(a == c * (q2 * q1)) by (nonlinear_arith)
        requires
            a == b * q1,
            b == c * q2,
    ;
    lemma_mod_multiples_basic(q2 * q1, c);
    assert(a % c == ((q2 * q1) * c) % c) by (nonlinear_arith)
        requires
            a == c * (q2 * q1),
    ;
}

/// Determines whether a number is prime.
pub fn is_prime(num: u32) -> (r: bool)
    ensures
        r == spec_is_prime(num as int),
{
    if num <= 1 {
        return false;
    }
    let mut d: u32 = 2;
    while d < num
        invariant
            2 <= d <= num,
            num >= 2,
            forall|k: int| 2 <= k < d ==> #[trigger] ((num as int) % k) != 0,
        decreases num - d,
    {
        if num % d == 0 {
            proof {
                assert((num as int) % (d as int) == 0);
            }
            return false;
        }
        d = d + 1;
    }
    true
}

/// Factors a number into primes by trial division: the returned factors
/// multiply back to `num`, come out in non-decreasing order, and every
/// one of them is prime.
pub fn prime_factors(num: u32) -> (r: Vec<u32>)
    requires
        num >= 2,
    ensures
        spec_product(r@) == num,
        forall|a: int, b: int| 0 <= a <= b < r@.len() ==> r@[a] <= r@[b],
        forall|k: int| 0 <= k < r@.len() ==> spec_is_prime(#[trigger] r@[k] as int),
{
    let mut factors: Vec<u32> = Vec::new();
    let mut curr: u32 = num;
    let mut factor: u64 = 2;
    while factor <= curr as u64
        invariant
            2 <= factor <= num + 1,
            1 <= curr <= num,
            num >= 2,
            spec_product(factors@) * curr == num,
            forall|d: int| 2 <= d < factor ==> #[trigger] ((curr as int) % d) != 0,
            forall|k: int| 0 <= k < factors@.len() ==> #[trigger] factors@[k] <= factor,
            forall|a: int, b: int| 0 <= a <= b < factors@.len() ==> factors@[a] <= factors@[b],
            forall|k: int| 0 <= k < factors@.len() ==> spec_is_prime(#[trigger] factors@[k] as int),
        decreases curr, num + 1 - factor,
    {
        let f: u32 = factor as u32;
        if curr % f == 0 {
            let ghost old_curr = curr as int;
            let ghost old_factors = factors@;
            proof {
                // The factor being pushed is prime: a proper divisor of it
                // would also divide `curr`, which has none below `factor`.
                assert forall|d: int| 2 <= d < f as int implies #[trigger] ((f as int) % d)
                    != 0 by {
                    if (f as int) % d == 0 {
                        lemma_divides_transitive(old_curr, f as int, d);
                    }
                }
                assert(spec_is_prime(f as int));
            }
            let next = curr / f;
            proof {
                lemma_fundamental_div_mod(old_curr, f as int);
                assert(old_curr == (f as int) * (next as int));
                // The quotient keeps the product intact.
                assert(factors@.push(f).drop_last() =~= factors@);
                assert(factors@.push(f).last() == f);
                assert(spec_product(factors@.push(f)) * (next as int) == spec_product(factors@)
                    * old_curr) by (nonlinear_arith)
                    requires
                        spec_product(factors@.push(f)) == spec_product(factors@) * (f as int),
                        old_curr == (f as int) * (next as int),
                ;
                // No divisor below `factor` appears in the quotient either.
                assert forall|d: int| 2 <= d < factor implies #[trigger] ((next as int) % d)
                    != 0 by {
                    if (next as int) % d == 0 {
                        lemma_mod_multiples_basic((next as int) / d * (f as int), d);
                        lemma_fundamental_div_mod(next as int, d);
                        assert(old_curr == ((next as int) / d * (f as int)) * d)
                            by (nonlinear_arith)
                            requires
                                old_curr == (f as int) * (next as int),
                                (next as int) == d * ((next as int) / d),
                        ;
                    }
                }
                // The quotient is at least one, since `factor <= curr`.
                assert(next >= 1) by (nonlinear_arith)
                    requires
                        old_curr == (f as int) * (next as int),
                        old_curr >= f,
                        f >= 2,
                        next >= 0,
                ;
                assert(next < old_curr) by (nonlinear_arith)
                    requires
                        old_curr == (f as int) * (next as int),
                        f >= 2,
                        next >= 1,
                ;
            }
            factors.push(f);
            curr = next;
        } else {
            proof {
                assert((curr as int) % (factor as int) != 0);
            }
            factor = factor + 1;
        }
    }
    proof {
        if curr >= 2 {
            lemma_mod_self_0(curr as int);
            assert((curr as int) % (curr as int) == 0);
            assert(false);
        }
        assert(curr == 1);
    }
    factors
}

} // verus!
