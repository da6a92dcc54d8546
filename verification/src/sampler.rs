//! The iterative sampler: consumes a polynomial once at construction to
//! derive forward-difference registers, narrows them to the compact
//! binary32 width, and thereafter produces each successive sample
//! P(x), P(x+dx), P(x+2dx), ... with additions alone.

use crate::ieee::add_double;
use crate::ieee::add_single;
use crate::ieee::dbl_add;
use crate::ieee::dbl_mul;
use crate::ieee::dbl_of_int;
use crate::ieee::dbl_sub;
use crate::ieee::double_of_i64;
use crate::ieee::mul_double;
use crate::ieee::sgl_add;
use crate::ieee::sgl_of_dbl;
use crate::ieee::single_of_double;
use crate::ieee::sub_double;
use crate::polynomial::eval_bits;
use crate::polynomial::Polynomial;
use vstd::prelude::*;

verus! {

/// The binary64 position `x + offset * dx`, as the setup computes it.
pub open spec fn sample_position(x: u64, dx: u64, offset: i64) -> u64 {
    dbl_add(x, dbl_mul(dbl_of_int(offset), dx))
}

/// The high-resolution samples the setup starts from: with N + 1
/// coefficients, the polynomial evaluated at the N + 1 positions
/// `x + (i - N - 1) * dx` for i = 0..=N — the positions spaced dx apart
/// that precede x, ending one step before it.
pub open spec fn initial_samples(c: Seq<u64>, x: u64, dx: u64) -> Seq<u64> {
    Seq::new(c.len(), |i: int| eval_bits(c, sample_position(x, dx, (i - c.len()) as i64)))
}

/// One in-place difference pass: entries 0..m are replaced by
/// `s[j + 1] - s[j]` (each read taken before either is overwritten),
/// entries from m on stay as they are.
pub open spec fn diff_pass(s: Seq<u64>, m: nat) -> Seq<u64> {
    Seq::new(s.len(), |j: int| if j < m { dbl_sub(s[j + 1], s[j]) } else { s[j] })
}

/// The difference table after k passes over a sequence of samples, each
/// pass one entry shorter than the one before: pass number p (from 0)
/// rewrites entries 0 .. len - 1 - p.
pub open spec fn diff_table(s: Seq<u64>, k: nat) -> Seq<u64>
    decreases k,
{
    if k == 0 {
        s
    } else {
        diff_pass(diff_table(s, (k - 1) as nat), (s.len() - k) as nat)
    }
}

/// Every entry narrowed once from binary64 to binary32.
pub open spec fn narrowed(s: Seq<u64>) -> Seq<u32> {
    Seq::new(s.len(), |i: int| sgl_of_dbl(s[i]))
}

/// The register state a fresh sampler holds: the full difference table
/// of the initial samples (N passes over N + 1 samples), narrowed.
/// Entry N holds the most recent sample before x; entries 0..N hold the
/// finite differences, highest order first.
pub open spec fn initial_registers(c: Seq<u64>, x: u64, dx: u64) -> Seq<u32> {
    narrowed(diff_table(initial_samples(c, x, dx), (c.len() - 1) as nat))
}

/// The register state after the first k single additions of one advance
/// call: addition number i (from 0, ascending) adds register i into
/// register i + 1, so each addition sees the one before it already done.
pub open spec fn advance_step(r: Seq<u32>, k: nat) -> Seq<u32>
    decreases k,
{
    if k == 0 {
        r
    } else {
        let p = advance_step(r, (k - 1) as nat);
        p.update(k as int, sgl_add(p[k as int], p[k - 1]))
    }
}

/// The register state after one whole advance call: N sequential
/// additions over N + 1 registers.
pub open spec fn advanced(r: Seq<u32>) -> Seq<u32> {
    advance_step(r, (r.len() - 1) as nat)
}

/// The register state after k advance calls.
pub open spec fn state_after(r: Seq<u32>, k: nat) -> Seq<u32>
    decreases k,
{
    if k == 0 {
        r
    } else {
        advanced(state_after(r, (k - 1) as nat))
    }
}

/// What the k-th advance call returns (k >= 1): the last register after
/// k advances. For k == 0 this is the last initial register, the sample
/// one step before x.
pub open spec fn output_after(r: Seq<u32>, k: nat) -> u32 {
    state_after(r, k).last()
}

/// The first k values a sampler with register state r produces.
pub open spec fn outputs_from(r: Seq<u32>, k: nat) -> Seq<u32> {
    Seq::new(k, |i: int| output_after(r, (i + 1) as nat))
}

/// A stateful generator of successive polynomial samples. Holds N + 1
/// compact binary32 registers: the finite differences and, last, the most
/// recently produced value. It keeps no reference to the polynomial.
pub struct IterativePolynomialSampler {
    registers: Vec<u32>,
}

impl View for IterativePolynomialSampler {
    type V = Seq<u32>;

    closed spec fn view(&self) -> Seq<u32> {
        self.registers@
    }
}

impl IterativePolynomialSampler {
    pub open spec fn wf(&self) -> bool {
        self@.len() >= 1
    }

    /// Derives the forward-difference registers from N + 1 high-resolution
    /// evaluations of `p` just before `x`, then narrows them once to the
    /// compact register width — the single precision-loss event.
    pub fn new(p: &Polynomial, x: u64, dx: u64) -> (s: Self)
        requires
            p.wf(),
        ensures
            s@ == initial_registers(p@, x, dx),
            s@.len() == p@.len(),
            s.wf(),
    {
        let count: usize = p.coefficient_count();
        let n: usize = count - 1;

        // 1. The polynomial's values at the count positions before x.
        let mut hi: Vec<u64> = Vec::new();
        let mut i: usize = 0;
        while i < count
            invariant
                p.wf(),
                count == p@.len(),
                count <= i64::MAX,
                n == count - 1,
                i <= count,
                hi@.len() == i,
                forall|t: int| 0 <= t < i ==> hi@[t] == initial_samples(p@, x, dx)[t],
            decreases count - i,
        {
            let offset: i64 = (i as i64) - (n as i64) - 1;
            let pos: u64 = add_double(x, mul_double(double_of_i64(offset), dx));
            let v: u64 = p.eval(pos);
            hi.push(v);
            i = i + 1;
        }
        assert(hi@ =~= initial_samples(p@, x, dx));

        // 2. The difference table, computed in place: each pass rewrites
        // one fewer entry than the one before.
        let ghost samples = hi@;
        let mut pass: usize = 0;
        while pass < n
            invariant
                hi@.len() == count,
                count == p@.len(),
                count <= i64::MAX,
                n == count - 1,
                pass <= n,
                hi@ == diff_table(samples, pass as nat),
                samples.len() == count,
            decreases n - pass,
        {
            let ghost before = hi@;
            let m: usize = n - pass;
            let mut j: usize = 0;
            while j < m
                invariant
                    hi@.len() == count,
                    n == count - 1,
                    m == n - pass,
                    m <= n,
                    j <= m,
                    before.len() == count,
                    hi@ == diff_pass(before, j as nat),
                decreases m - j,
            {
                let d: u64 = sub_double(hi[j + 1], hi[j]);
                hi[j] = d;
                j = j + 1;
                assert(hi@ =~= diff_pass(before, j as nat));
            }
            pass = pass + 1;
            assert(hi@ =~= diff_table(samples, pass as nat));
        }

        // 3. Narrow every register once to the compact width.
        let mut registers: Vec<u32> = Vec::new();
        let mut i: usize = 0;
        while i < count
            invariant
                hi@.len() == count,
                i <= count,
                registers@.len() == i,
                forall|t: int| 0 <= t < i ==> registers@[t] == sgl_of_dbl(hi@[t]),
            decreases count - i,
        {
            let w: u32 = single_of_double(hi[i]);
            registers.push(w);
            i = i + 1;
        }
        assert(registers@ =~= narrowed(hi@));

        IterativePolynomialSampler { registers }
    }

    /// The next sample: adds each register into the one after it, in
    /// ascending order, and returns the last register — now P one step
    /// further on. N additions, nothing else.
    pub fn next(&mut self) -> (r: u32)
        requires
            old(self).wf(),
        ensures
            final(self)@ == advanced(old(self)@),
            final(self)@.len() == old(self)@.len(),
            r == final(self)@.last(),
            final(self).wf(),
    {
        let n: usize = self.registers.len() - 1;
        let ghost orig = self.registers@;
        let mut i: usize = 0;
        while i < n
            invariant
                orig.len() >= 1,
                n == orig.len() - 1,
                i <= n,
                self.registers@.len() == orig.len(),
                self.registers@ == advance_step(orig, i as nat),
            decreases n - i,
        {
            let v: u32 = add_single(self.registers[i + 1], self.registers[i]);
            self.registers[i + 1] = v;
            i = i + 1;
        }
        self.registers[n]
    }
}

/// Advancing never changes how many registers there are: after any k of
/// the single additions the state is as long as before.
pub proof fn lemma_advance_step_len(r: Seq<u32>, k: nat)
    requires
        r.len() >= 1,
        k <= r.len() - 1,
    ensures
        advance_step(r, k).len() == r.len(),
    decreases k,
{
    if k > 0 {
        lemma_advance_step_len(r, (k - 1) as nat);
    }
}

/// The register count is invariant across whole advance calls.
pub proof fn lemma_state_after_len(r: Seq<u32>, k: nat)
    requires
        r.len() >= 1,
    ensures
        state_after(r, k).len() == r.len(),
    decreases k,
{
    if k > 0 {
        lemma_state_after_len(r, (k - 1) as nat);
        lemma_advance_step_len(state_after(r, (k - 1) as nat), (r.len() - 1) as nat);
    }
}

/// The o-th forward difference of the samples s at position j: the
/// zero-th is the sample itself, each higher order the binary64
/// difference of two adjacent differences one order lower.
pub open spec fn forward_difference(s: Seq<u64>, o: nat, j: int) -> u64
    decreases o,
{
    if o == 0 {
        s[j]
    } else {
        dbl_sub(
            forward_difference(s, (o - 1) as nat, j + 1),
            forward_difference(s, (o - 1) as nat, j),
        )
    }
}

/// The difference passes preserve the table's length.
pub proof fn lemma_diff_table_len(s: Seq<u64>, k: nat)
    ensures
        diff_table(s, k).len() == s.len(),
    decreases k,
{
    if k > 0 {
        lemma_diff_table_len(s, (k - 1) as nat);
    }
}

/// What the in-place passes compute: after k passes, entry j of the
/// table holds a forward difference of the samples at position j — of
/// order k where the shrinking passes still reach, and of order
/// len - 1 - j where they have already left the entry behind.
pub proof fn lemma_diff_table_entries(s: Seq<u64>, k: nat, j: int)
    requires
        1 <= s.len(),
        k <= s.len() - 1,
        0 <= j < s.len(),
    ensures
        diff_table(s, k)[j] == forward_difference(
            s,
            if k + j <= s.len() - 1 {
                k
            } else {
                (s.len() - 1 - j) as nat
            },
            j,
        ),
    decreases k,
{
    if k > 0 {
        lemma_diff_table_len(s, (k - 1) as nat);
        let m = (s.len() - k) as nat;
        if j < m {
            lemma_diff_table_entries(s, (k - 1) as nat, j);
            lemma_diff_table_entries(s, (k - 1) as nat, j + 1);
        } else {
            lemma_diff_table_entries(s, (k - 1) as nat, j);
        }
    }
}

/// What a fresh sampler's registers mean: register j holds the
/// (N - j)-th forward difference of the N + 1 initial samples at
/// position j, narrowed once — the highest-order difference first and,
/// last, the latest sample itself, untouched by every pass.
pub proof fn lemma_initial_register_meaning(c: Seq<u64>, x: u64, dx: u64, j: int)
    requires
        1 <= c.len(),
        0 <= j < c.len(),
    ensures
        initial_registers(c, x, dx).len() == c.len(),
        initial_registers(c, x, dx)[j] == sgl_of_dbl(
            forward_difference(initial_samples(c, x, dx), (c.len() - 1 - j) as nat, j),
        ),
{
    let s = initial_samples(c, x, dx);
    lemma_diff_table_len(s, (c.len() - 1) as nat);
    lemma_diff_table_entries(s, (c.len() - 1) as nat, j);
}

/// Determinism: samplers holding identical register states produce
/// identical output sequences. Since `new` pins the initial registers as
/// a function of (coefficients, x, dx) alone, two samplers constructed
/// from identical inputs produce bit-identical `next` sequences.
pub proof fn lemma_deterministic(
    a: IterativePolynomialSampler,
    b: IterativePolynomialSampler,
    k: nat,
)
    requires
        a@ == b@,
    ensures
        outputs_from(a@, k) == outputs_from(b@, k),
{
}

/// A constant (degree-0) polynomial: the sampler's one register holds the
/// constant, narrowed once at setup, and every advance returns it exactly
/// and changes nothing.
pub proof fn lemma_constant_polynomial(c: u64, x: u64, dx: u64, k: nat)
    ensures
        initial_registers(seq![c], x, dx) =~= seq![sgl_of_dbl(c)],
        state_after(initial_registers(seq![c], x, dx), k) =~= initial_registers(seq![c], x, dx),
        output_after(initial_registers(seq![c], x, dx), k) == sgl_of_dbl(c),
{
    assert(initial_samples(seq![c], x, dx) =~= seq![c]);
    assert(initial_registers(seq![c], x, dx) =~= seq![sgl_of_dbl(c)]);
    lemma_constant_state(sgl_of_dbl(c), k);
}

/// A one-register state is a fixed point of advancing: there are no
/// additions to make, so the state and the output never change.
pub proof fn lemma_constant_state(v: u32, k: nat)
    ensures
        state_after(seq![v], k) =~= seq![v],
        output_after(seq![v], k) == v,
    decreases k,
{
    if k > 0 {
        lemma_constant_state(v, (k - 1) as nat);
        assert(advanced(seq![v]) =~= seq![v]);
    }
}

/// A linear (degree-1) polynomial: register 0 — the first difference
/// computed at setup — never changes, and every advance adds exactly that
/// register to the previous output. The outputs therefore form an
/// arithmetic progression (in binary32 additions) whose constant common
/// difference is the narrowed first difference, b * dx up to the rounding
/// of setup and of the cast boundary.
pub proof fn lemma_linear_progression(r: Seq<u32>, k: nat)
    requires
        r.len() == 2,
        k >= 1,
    ensures
        state_after(r, k).len() == 2,
        state_after(r, k)[0] == r[0],
        output_after(r, k) == sgl_add(output_after(r, (k - 1) as nat), r[0]),
    decreases k,
{
    lemma_state_after_len(r, k);
    lemma_state_after_len(r, (k - 1) as nat);
    if k > 1 {
        lemma_linear_progression(r, (k - 1) as nat);
    }
    let prev = state_after(r, (k - 1) as nat);
    assert(state_after(r, k) == advanced(prev));
    assert(advance_step(prev, 0) == prev);
    assert(advanced(prev) == advance_step(prev, 1));
    assert(advance_step(prev, 1) == prev.update(1, sgl_add(prev[1], prev[0])));
}

/// At setup for a degree-1 polynomial the difference register holds the
/// narrowed difference of the two initial samples, and the value register
/// holds the narrowed later sample — the one taken a step before x.
pub proof fn lemma_linear_setup(c: Seq<u64>, x: u64, dx: u64)
    requires
        c.len() == 2,
    ensures
        initial_registers(c, x, dx).len() == 2,
        initial_registers(c, x, dx)[0] == sgl_of_dbl(
            dbl_sub(initial_samples(c, x, dx)[1], initial_samples(c, x, dx)[0]),
        ),
        initial_registers(c, x, dx)[1] == sgl_of_dbl(initial_samples(c, x, dx)[1]),
{
    let s = initial_samples(c, x, dx);
    assert(diff_table(s, 1) == diff_pass(diff_table(s, 0), 1));
}

} // verus!
