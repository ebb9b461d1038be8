//! Greatest common divisors by Euclid's algorithm, and the gcd request
//! handling built on it.

use vstd::prelude::*;

verus! {

/// `d` divides `n` (for positive `d`).
pub open spec fn divides(d: int, n: int) -> bool
    recommends
        d >= 1,
{
    n % d == 0
}

/// `r` is the greatest common divisor of `n` and `m`: a positive common
/// divisor that every common divisor divides.
pub open spec fn is_gcd(n: int, m: int, r: int) -> bool {
    &&& r >= 1
    &&& divides(r, n)
    &&& divides(r, m)
    &&& forall|d: int| d >= 1 && divides(d, n) && divides(d, m) ==> divides(d, r)
}

/// Dividing out a remainder keeps the common divisors: for positive `a`,
/// the common divisors of `(a, b)` are exactly those of `(a, b % a)`.
proof fn lemma_common_divisors_mod(d: int, a: int, b: int)
    requires
        d >= 1,
        a >= 1,
        b >= 0,
    ensures
        (divides(d, a) && divides(d, b)) <==> (divides(d, a) && divides(d, b % a)),
{
    vstd::arithmetic::div_mod::lemma_fundamental_div_mod(b, a);
    let q = b / a;
    let r = b % a;
    if divides(d, a) {
        vstd::arithmetic::div_mod::lemma_fundamental_div_mod(a, d);
        let k = a / d;
        if divides(d, b) {
            vstd::arithmetic::div_mod::lemma_fundamental_div_mod(b, d);
            let j = b / d;
            assert(r == (j - k * q) * d) by (nonlinear_arith)
                requires
                    b == a * q + r,
                    a == d * k,
                    b == d * j,
            ;
            vstd::arithmetic::div_mod::lemma_mod_multiples_basic(j - k * q, d);
        }
        if divides(d, r) {
            vstd::arithmetic::div_mod::lemma_fundamental_div_mod(r, d);
            let i = r / d;
            assert(b == (k * q + i) * d) by (nonlinear_arith)
                requires
                    b == a * q + r,
                    a == d * k,
                    r == d * i,
            ;
            vstd::arithmetic::div_mod::lemma_mod_multiples_basic(k * q + i, d);
        }
    }
}

/// Divisibility is transitive.
proof fn lemma_divides_transitive(d: int, a: int, b: int)
    requires
        d >= 1,
        a >= 1,
        divides(d, a),
        divides(a, b),
    ensures
        divides(d, b),
{
    vstd::arithmetic::div_mod::lemma_fundamental_div_mod(a, d);
    let k = a / d;
    vstd::arithmetic::div_mod::lemma_fundamental_div_mod(b, a);
    let j = b / a;
    assert(b == (k * j) * d) by (nonlinear_arith)
        requires
            a == d * k,
            b == a * j,
    ;
    vstd::arithmetic::div_mod::lemma_mod_multiples_basic(k * j, d);
}

/// Greatest common divisor of two nonzero numbers, by Euclid's algorithm.
pub fn gcd(n: u64, m: u64) -> (r: u64)
    requires
        n != 0,
        m != 0,
    ensures
        is_gcd(n as int, m as int, r as int),
{
    let mut a = n;
    let mut b = m;
    while b != 0
        invariant
            a >= 1,
            forall|d: int|
                d >= 1 ==> ((divides(d, a as int) && divides(d, b as int)) <==> (divides(
                    d,
                    n as int,
                ) && divides(d, m as int))),
        decreases b,
    {
        if b < a {
            let t: u64 = b;
            b = a;
            a = t;
        }
        proof {
            assert forall|d: int|
                d >= 1 implies ((divides(d, a as int) && divides(
                d,
                (b as int) % (a as int),
            )) <==> (divides(d, a as int) && divides(d, b as int))) by {
                lemma_common_divisors_mod(d, a as int, b as int);
            }
        }
        b = b % a;
    }
    proof {
        vstd::arithmetic::div_mod::lemma_mod_multiples_basic(1, a as int);
        vstd::arithmetic::div_mod::lemma_mod_multiples_basic(0, a as int);
        assert(divides(a as int, a as int));
        assert(divides(a as int, 0));
    }
    a
}

/// The form page of the gcd calculator: what its root serves.
pub fn index_page() -> (r: String)
    ensures
        r@ == r#"
                <title>GCD Calculator</title>
                <form action="/gcd" method="post">
                <input type="text" name="n"/>
                <input type="text" name="m"/>
                <button type="submit">Compute GCD</button>
                </form>
            "#@,
{
    let page = r#"
                <title>GCD Calculator</title>
                <form action="/gcd" method="post">
                <input type="text" name="n"/>
                <input type="text" name="m"/>
                <button type="submit">Compute GCD</button>
                </form>
            "#;
    page.to_owned()
}

/// Outcome of a gcd request over the wire: the request is rejected exactly
/// when either operand is zero, and otherwise answered with the greatest
/// common divisor.
pub fn post_gcd(n: u64, m: u64) -> (r: Option<u64>)
    ensures
        r is Some <==> (n != 0 && m != 0),
        r matches Some(g) ==> is_gcd(n as int, m as int, g as int),
{
    if n == 0 || m == 0 {
        None
    } else {
        Some(gcd(n, m))
    }
}

/// Positive `d` divides every element of the list.
pub open spec fn common_divisor_of_all(d: int, s: Seq<u64>) -> bool {
    forall|i: int| 0 <= i < s.len() ==> divides(d, (#[trigger] s[i]) as int)
}

/// Greatest common divisor of a whole list of nonzero numbers: folds `gcd`
/// over the list, so the result divides every element and every common
/// divisor of the list divides the result.
#[verifier::loop_isolation(false)]
pub fn gcd_list(numbers: &Vec<u64>) -> (r: u64)
    requires
        numbers@.len() >= 1,
        forall|i: int| 0 <= i < numbers@.len() ==> numbers@[i] != 0,
    ensures
        r >= 1,
        common_divisor_of_all(r as int, numbers@),
        forall|d: int|
            d >= 1 && #[trigger] common_divisor_of_all(d, numbers@) ==> divides(d, r as int),
{
    let mut acc = numbers[0];
    let mut idx: usize = 1;
    proof {
        vstd::arithmetic::div_mod::lemma_mod_multiples_basic(1, acc as int);
    }
    while idx < numbers.len()
        invariant
            1 <= idx <= numbers@.len(),
            acc >= 1,
            forall|i: int| 0 <= i < idx ==> divides(acc as int, (#[trigger] numbers@[i]) as int),
            forall|d: int|
                d >= 1 && #[trigger] common_divisor_of_all(d, numbers@) ==> divides(d, acc as int),
        decreases numbers@.len() - idx,
    {
        let next = numbers[idx];
        let updated = gcd(acc, next);
        proof {
            assert forall|i: int| 0 <= i < idx + 1 implies divides(
                updated as int,
                (#[trigger] numbers@[i]) as int,
            ) by {
                if i < idx {
                    lemma_divides_transitive(updated as int, acc as int, numbers@[i] as int);
                }
            }
            assert forall|d: int|
                d >= 1 && #[trigger] common_divisor_of_all(d, numbers@) implies divides(
                d,
                updated as int,
            ) by {
                assert(divides(d, numbers@[idx as int] as int));
            }
        }
        acc = updated;
        idx = idx + 1;
    }
    acc
}

} // verus!
