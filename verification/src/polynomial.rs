//! A fixed-degree polynomial held in high-resolution (binary64)
//! coefficients, with direct evaluation by summation of power terms.

use crate::ieee::add_double;
use crate::ieee::dbl_add;
use crate::ieee::dbl_mul;
use crate::ieee::mul_double;
use vstd::prelude::*;

verus! {

/// The bit pattern of x^k (k >= 1): k - 1 binary64 multiplications,
/// one factor at a time from the left.
pub open spec fn pow_bits(x: u64, k: nat) -> u64
    decreases k,
{
    if k <= 1 {
        x
    } else {
        dbl_mul(pow_bits(x, (k - 1) as nat), x)
    }
}

/// The bit pattern of c[0] + c[1]*x + ... + c[n]*x^n, the terms added
/// left to right in binary64.
pub open spec fn eval_prefix(c: Seq<u64>, x: u64, n: nat) -> u64
    decreases n,
{
    if n == 0 {
        c[0]
    } else {
        dbl_add(eval_prefix(c, x, (n - 1) as nat), dbl_mul(c[n as int], pow_bits(x, n)))
    }
}

/// The binary64 evaluation of the whole polynomial `c` at `x`.
pub open spec fn eval_bits(c: Seq<u64>, x: u64) -> u64 {
    eval_prefix(c, x, (c.len() - 1) as nat)
}

/// A polynomial of degree N, held as N + 1 binary64 coefficient bit
/// patterns; index i holds the coefficient of x^i. Immutable once built.
pub struct Polynomial {
    coefficients: Vec<u64>,
}

impl View for Polynomial {
    type V = Seq<u64>;

    closed spec fn view(&self) -> Seq<u64> {
        self.coefficients@
    }
}

impl Polynomial {
    /// At least one coefficient, and few enough that every sample offset
    /// the sampler derives from the degree fits in a signed machine word.
    pub open spec fn wf(&self) -> bool {
        1 <= self@.len() <= i64::MAX
    }

    /// Stores the coefficients unchanged; index i holds the coefficient
    /// of x^i, so the degree is one less than the length.
    pub fn new(coefficients: Vec<u64>) -> (p: Self)
        requires
            1 <= coefficients@.len() <= i64::MAX,
        ensures
            p@ == coefficients@,
            p.wf(),
    {
        Polynomial { coefficients }
    }

    /// How many coefficients the polynomial holds (its degree plus one).
    pub fn coefficient_count(&self) -> (n: usize)
        ensures
            n == self@.len(),
    {
        self.coefficients.len()
    }

    /// Direct evaluation at `x`: exactly the binary64 sum
    /// c[0] + c[1]*x + ... + c[n]*x^n, the powers formed by repeated
    /// multiplication and the terms added left to right.
    pub fn eval(&self, x: u64) -> (r: u64)
        requires
            self.wf(),
        ensures
            r == eval_bits(self@, x),
    {
        let n: usize = self.coefficients.len() - 1;
        let mut result: u64 = self.coefficients[0];
        let mut i: usize = 1;
        while i <= n
            invariant
                1 <= i <= n + 1,
                n < usize::MAX,
                n + 1 == self@.len(),
                self@.len() <= i64::MAX,
                result == eval_prefix(self@, x, (i - 1) as nat),
            decreases n + 1 - i,
        {
            let term: u64 = mul_double(self.coefficients[i], pow_double(x, i));
            result = add_double(result, term);
            i = i + 1;
        }
        result
    }
}

/// x^k by k - 1 binary64 multiplications, left to right.
fn pow_double(x: u64, k: usize) -> (r: u64)
    requires
        1 <= k,
    ensures
        r == pow_bits(x, k as nat),
{
    let mut r: u64 = x;
    let mut j: usize = 1;
    while j < k
        invariant
            1 <= j <= k,
            r == pow_bits(x, j as nat),
        decreases k - j,
    {
        r = mul_double(r, x);
        j = j + 1;
    }
    r
}

} // verus!
