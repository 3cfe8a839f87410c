//! The gadget library: the arithmetic primitives layers compute through.
//!
//! Each gadget maps already-constrained quantized values to new constrained
//! values. The contracts here state each gadget's mathematical function; a
//! gadget whose nonlinear function is approximated by a precomputed lookup
//! table carries the table as an explicit value, built once per circuit.

use vstd::prelude::*;
use crate::config::{GadgetConfig, GadgetType};
use crate::error::CircuitError;

verus! {

/// Rounding division: `round(x / d)` for a positive divisor, computed as
/// `floor((2x + d) / (2d))`. Division on `int` rounds toward negative
/// infinity for a positive divisor.
pub open spec fn spec_round_div(x: int, d: int) -> int {
    (2 * x + d) / (2 * d)
}

/// Division with rounding to the nearest integer, halves rounding up; the
/// primitive behind every divide-and-rescale gadget.
pub fn round_div(x: i64, d: i64) -> (r: i64)
    requires
        0 < d <= 0x1_0000_0000,
        -0x1000_0000_0000_0000 <= x <= 0x1000_0000_0000_0000,
    ensures
        r == spec_round_div(x as int, d as int),
{
    let num: i64 = 2 * x + d;
    let den: i64 = 2 * d;
    if num >= 0 {
        let q: u64 = (num as u64) / (den as u64);
        proof {
            assert(q == num as int / den as int);
        }
        q as i64
    } else {
        let a: u64 = (-num) as u64;
        let q: u64 = (a + (den as u64) - 1) / (den as u64);
        proof {
            let ai = a as int;
            let di = den as int;
            let qi = q as int;
            vstd::arithmetic::div_mod::lemma_fundamental_div_mod(ai + di - 1, di);
            let r0 = (ai + di - 1) % di;
            assert(ai + di - 1 == di * qi + r0);
            assert((-qi) * di + (di - 1 - r0) == -ai) by (nonlinear_arith)
                requires
                    ai + di - 1 == di * qi + r0,
            ;
            vstd::arithmetic::div_mod::lemma_fundamental_div_mod_converse(
                -ai,
                di,
                -qi,
                di - 1 - r0,
            );
            assert((-ai) / di == -qi);
            assert(2 * qi <= di * qi) by (nonlinear_arith)
                requires
                    di >= 2,
                    qi >= 0,
            ;
        }
        -(q as i64)
    }
}

/// Clip a value to the closed interval `[lo, hi]`.
pub open spec fn spec_clip(x: int, lo: int, hi: int) -> int {
    if x < lo {
        lo
    } else if x > hi {
        hi
    } else {
        x
    }
}

/// The bias-divide-round-relu6 gadget's function: `round((acc + bias) / d)`
/// clipped to `[0, 6·sf]`. Every affine layer normalizes through it.
pub open spec fn spec_bias_div_round_relu6(acc: int, bias: int, d: int, sf: int) -> int {
    spec_clip(spec_round_div(acc + bias, d), 0, 6 * sf)
}

/// Add a bias, divide with rounding, and clip to the activation range
/// `[0, 6·sf]`.
pub fn bias_div_round_relu6(acc: i64, bias: i64, d: i64, sf: u64) -> (r: i64)
    requires
        0 < d <= 0x1_0000_0000,
        sf <= 0x400_0000,
        -0x800_0000_0000_0000 <= acc <= 0x800_0000_0000_0000,
        -0x800_0000_0000_0000 <= bias <= 0x800_0000_0000_0000,
    ensures
        r == spec_bias_div_round_relu6(acc as int, bias as int, d as int, sf as int),
        0 <= r <= 6 * sf,
{
    let q = round_div(acc + bias, d);
    let hi: i64 = 6 * (sf as i64);
    if q < 0 {
        0
    } else if q > hi {
        hi
    } else {
        q
    }
}

/// Pairwise sum of two equally long value vectors.
pub open spec fn spec_add_pairs(a: Seq<int>, b: Seq<int>) -> Seq<int> {
    Seq::new(a.len(), |i: int| a[i] + b[i])
}

/// Pairwise difference of two equally long value vectors.
pub open spec fn spec_sub_pairs(a: Seq<int>, b: Seq<int>) -> Seq<int> {
    Seq::new(a.len(), |i: int| a[i] - b[i])
}

/// Pairwise product of two equally long value vectors.
pub open spec fn spec_mul_pairs(a: Seq<int>, b: Seq<int>) -> Seq<int> {
    Seq::new(a.len(), |i: int| a[i] * b[i])
}

/// Pairwise squared difference of two equally long value vectors.
pub open spec fn spec_squared_diff(a: Seq<int>, b: Seq<int>) -> Seq<int> {
    Seq::new(a.len(), |i: int| (a[i] - b[i]) * (a[i] - b[i]))
}

/// All values of a vector lie in `[-bound, bound]`.
pub open spec fn vals_bounded(a: Seq<int>, bound: int) -> bool {
    forall|i: int| 0 <= i < a.len() ==> -bound <= #[trigger] a[i] <= bound
}

/// The add-pairs gadget: element i of the output is `a[i] + b[i]`.
pub fn add_pairs(a: &Vec<i64>, b: &Vec<i64>) -> (r: Vec<i64>)
    requires
        a@.len() == b@.len(),
        vals_bounded(a@.map_values(|x: i64| x as int), 0x1000_0000_0000_0000),
        vals_bounded(b@.map_values(|x: i64| x as int), 0x1000_0000_0000_0000),
    ensures
        r@.map_values(|x: i64| x as int) == spec_add_pairs(
            a@.map_values(|x: i64| x as int),
            b@.map_values(|x: i64| x as int),
        ),
{
    let mut out: Vec<i64> = Vec::new();
    let mut i: usize = 0;
    while i < a.len()
        invariant
            0 <= i <= a@.len(),
            a@.len() == b@.len(),
            vals_bounded(a@.map_values(|x: i64| x as int), 0x1000_0000_0000_0000),
            vals_bounded(b@.map_values(|x: i64| x as int), 0x1000_0000_0000_0000),
            out@.len() == i,
            forall|j: int| 0 <= j < i ==> out@[j] == a@[j] + b@[j],
        decreases a@.len() - i,
    {
        assert(a@.map_values(|x: i64| x as int)[i as int] == a@[i as int]);
        assert(b@.map_values(|x: i64| x as int)[i as int] == b@[i as int]);
        out.push(a[i] + b[i]);
        i += 1;
    }
    proof {
        assert(out@.map_values(|x: i64| x as int) =~= spec_add_pairs(
            a@.map_values(|x: i64| x as int),
            b@.map_values(|x: i64| x as int),
        ));
    }
    out
}

/// The sub-pairs gadget: element i of the output is `a[i] - b[i]`.
pub fn sub_pairs(a: &Vec<i64>, b: &Vec<i64>) -> (r: Vec<i64>)
    requires
        a@.len() == b@.len(),
        vals_bounded(a@.map_values(|x: i64| x as int), 0x1000_0000_0000_0000),
        vals_bounded(b@.map_values(|x: i64| x as int), 0x1000_0000_0000_0000),
    ensures
        r@.map_values(|x: i64| x as int) == spec_sub_pairs(
            a@.map_values(|x: i64| x as int),
            b@.map_values(|x: i64| x as int),
        ),
{
    let mut out: Vec<i64> = Vec::new();
    let mut i: usize = 0;
    while i < a.len()
        invariant
            0 <= i <= a@.len(),
            a@.len() == b@.len(),
            vals_bounded(a@.map_values(|x: i64| x as int), 0x1000_0000_0000_0000),
            vals_bounded(b@.map_values(|x: i64| x as int), 0x1000_0000_0000_0000),
            out@.len() == i,
            forall|j: int| 0 <= j < i ==> out@[j] == a@[j] - b@[j],
        decreases a@.len() - i,
    {
        assert(a@.map_values(|x: i64| x as int)[i as int] == a@[i as int]);
        assert(b@.map_values(|x: i64| x as int)[i as int] == b@[i as int]);
        out.push(a[i] - b[i]);
        i += 1;
    }
    proof {
        assert(out@.map_values(|x: i64| x as int) =~= spec_sub_pairs(
            a@.map_values(|x: i64| x as int),
            b@.map_values(|x: i64| x as int),
        ));
    }
    out
}

/// The mul-pairs gadget: element i of the output is `a[i] * b[i]`.
pub fn mul_pairs(a: &Vec<i64>, b: &Vec<i64>) -> (r: Vec<i64>)
    requires
        a@.len() == b@.len(),
        vals_bounded(a@.map_values(|x: i64| x as int), 0x4000_0000),
        vals_bounded(b@.map_values(|x: i64| x as int), 0x4000_0000),
    ensures
        r@.map_values(|x: i64| x as int) == spec_mul_pairs(
            a@.map_values(|x: i64| x as int),
            b@.map_values(|x: i64| x as int),
        ),
        vals_bounded(r@.map_values(|x: i64| x as int), 0x1000_0000_0000_0000),
{
    let mut out: Vec<i64> = Vec::new();
    let mut i: usize = 0;
    while i < a.len()
        invariant
            0 <= i <= a@.len(),
            a@.len() == b@.len(),
            vals_bounded(a@.map_values(|x: i64| x as int), 0x4000_0000),
            vals_bounded(b@.map_values(|x: i64| x as int), 0x4000_0000),
            out@.len() == i,
            forall|j: int| 0 <= j < i ==> out@[j] == a@[j] * b@[j],
            forall|j: int|
                0 <= j < i ==> -0x1000_0000_0000_0000 <= #[trigger] out@[j]
                    <= 0x1000_0000_0000_0000,
        decreases a@.len() - i,
    {
        assert(a@.map_values(|x: i64| x as int)[i as int] == a@[i as int]);
        assert(b@.map_values(|x: i64| x as int)[i as int] == b@[i as int]);
        proof {
            assert(-0x4000_0000 * 0x4000_0000 <= a@[i as int] * b@[i as int] <= 0x4000_0000
                * 0x4000_0000) by (nonlinear_arith)
                requires
                    -0x4000_0000 <= a@[i as int] <= 0x4000_0000,
                    -0x4000_0000 <= b@[i as int] <= 0x4000_0000,
            ;
        }
        out.push(a[i] * b[i]);
        i += 1;
    }
    proof {
        assert(out@.map_values(|x: i64| x as int) =~= spec_mul_pairs(
            a@.map_values(|x: i64| x as int),
            b@.map_values(|x: i64| x as int),
        ));
    }
    out
}

/// The squared-difference gadget: element i of the output is
/// `(a[i] - b[i])^2`.
pub fn squared_diff(a: &Vec<i64>, b: &Vec<i64>) -> (r: Vec<i64>)
    requires
        a@.len() == b@.len(),
        vals_bounded(a@.map_values(|x: i64| x as int), 0x2000_0000),
        vals_bounded(b@.map_values(|x: i64| x as int), 0x2000_0000),
    ensures
        r@.map_values(|x: i64| x as int) == spec_squared_diff(
            a@.map_values(|x: i64| x as int),
            b@.map_values(|x: i64| x as int),
        ),
        vals_bounded(r@.map_values(|x: i64| x as int), 0x1000_0000_0000_0000),
{
    let mut out: Vec<i64> = Vec::new();
    let mut i: usize = 0;
    while i < a.len()
        invariant
            0 <= i <= a@.len(),
            a@.len() == b@.len(),
            vals_bounded(a@.map_values(|x: i64| x as int), 0x2000_0000),
            vals_bounded(b@.map_values(|x: i64| x as int), 0x2000_0000),
            out@.len() == i,
            forall|j: int| 0 <= j < i ==> out@[j] == (a@[j] - b@[j]) * (a@[j] - b@[j]),
            forall|j: int|
                0 <= j < i ==> -0x1000_0000_0000_0000 <= #[trigger] out@[j]
                    <= 0x1000_0000_0000_0000,
        decreases a@.len() - i,
    {
        assert(a@.map_values(|x: i64| x as int)[i as int] == a@[i as int]);
        assert(b@.map_values(|x: i64| x as int)[i as int] == b@[i as int]);
        let d: i64 = a[i] - b[i];
        proof {
            assert(0 <= d * d <= 0x4000_0000 * 0x4000_0000) by (nonlinear_arith)
                requires
                    -0x4000_0000 <= d <= 0x4000_0000,
            ;
        }
        out.push(d * d);
        i += 1;
    }
    proof {
        assert(out@.map_values(|x: i64| x as int) =~= spec_squared_diff(
            a@.map_values(|x: i64| x as int),
            b@.map_values(|x: i64| x as int),
        ));
    }
    out
}

/// Sum of a value vector.
pub open spec fn spec_sum(a: Seq<int>) -> int
    decreases a.len(),
{
    if a.len() == 0 {
        0
    } else {
        spec_sum(a.drop_last()) + a.last()
    }
}

/// The adder gadget: the sum of all inputs.
pub fn adder(a: &Vec<i64>) -> (r: i64)
    requires
        a@.len() <= 0x1_0000_0000,
        vals_bounded(a@.map_values(|x: i64| x as int), 0x4000_0000),
    ensures
        r == spec_sum(a@.map_values(|x: i64| x as int)),
{
    let mut acc: i64 = 0;
    let mut i: usize = 0;
    while i < a.len()
        invariant
            0 <= i <= a@.len(),
            a@.len() <= 0x1_0000_0000,
            vals_bounded(a@.map_values(|x: i64| x as int), 0x4000_0000),
            acc == spec_sum(a@.map_values(|x: i64| x as int).take(i as int)),
            -(i as int) * 0x4000_0000 <= acc <= (i as int) * 0x4000_0000,
        decreases a@.len() - i,
    {
        proof {
            let m = a@.map_values(|x: i64| x as int);
            assert(m.take(i as int + 1).drop_last() =~= m.take(i as int));
            assert(m[i as int] == a@[i as int]);
        }
        acc = acc + a[i];
        i += 1;
    }
    proof {
        let m = a@.map_values(|x: i64| x as int);
        assert(m.take(m.len() as int) =~= m);
    }
    acc
}

/// Dot product of two equally long value vectors.
pub open spec fn spec_dot(a: Seq<int>, b: Seq<int>) -> int
    decreases a.len(),
{
    if a.len() == 0 {
        0
    } else {
        spec_dot(a.drop_last(), b.drop_last()) + a.last() * b.last()
    }
}

/// The dot-product gadget: the inner product of a value vector and a weight
/// vector; an affine layer follows it with bias-divide-round-relu6.
pub fn dot_product(a: &Vec<i64>, w: &Vec<i64>) -> (r: i64)
    requires
        a@.len() == w@.len(),
        a@.len() <= 0x100,
        vals_bounded(a@.map_values(|x: i64| x as int), 0x800_0000),
        vals_bounded(w@.map_values(|x: i64| x as int), 0x800_0000),
    ensures
        r == spec_dot(a@.map_values(|x: i64| x as int), w@.map_values(|x: i64| x as int)),
{
    let mut acc: i64 = 0;
    let mut i: usize = 0;
    while i < a.len()
        invariant
            0 <= i <= a@.len(),
            a@.len() == w@.len(),
            a@.len() <= 0x100,
            vals_bounded(a@.map_values(|x: i64| x as int), 0x800_0000),
            vals_bounded(w@.map_values(|x: i64| x as int), 0x800_0000),
            acc == spec_dot(
                a@.map_values(|x: i64| x as int).take(i as int),
                w@.map_values(|x: i64| x as int).take(i as int),
            ),
            -(i as int) * 0x40_0000_0000_0000 <= acc <= (i as int) * 0x40_0000_0000_0000,
        decreases a@.len() - i,
    {
        proof {
            let ma = a@.map_values(|x: i64| x as int);
            let mw = w@.map_values(|x: i64| x as int);
            assert(ma.take(i as int + 1).drop_last() =~= ma.take(i as int));
            assert(mw.take(i as int + 1).drop_last() =~= mw.take(i as int));
            assert(ma[i as int] == a@[i as int]);
            assert(mw[i as int] == w@[i as int]);
            assert(-0x40_0000_0000_0000 <= a@[i as int] * w@[i as int] <= 0x40_0000_0000_0000)
                by (nonlinear_arith)
                requires
                    -0x800_0000 <= a@[i as int] <= 0x800_0000,
                    -0x800_0000 <= w@[i as int] <= 0x800_0000,
            ;
        }
        acc = acc + a[i] * w[i];
        i += 1;
    }
    proof {
        let ma = a@.map_values(|x: i64| x as int);
        let mw = w@.map_values(|x: i64| x as int);
        assert(ma.take(ma.len() as int) =~= ma);
        assert(mw.take(mw.len() as int) =~= mw);
    }
    acc
}

/// A precomputed lookup table for one nonlinear gadget: for every admissible
/// input `x` in `[min_val, max_val)` the table holds the gadget's output at
/// index `x - min_val`.
#[derive(Debug)]
pub struct LookupTable {
    pub min_val: i64,
    pub max_val: i64,
    pub out_values: Vec<i64>,
}

impl LookupTable {
    /// Coverage: one entry for every admissible input, every entry itself an
    /// admissible value.
    pub open spec fn wf(self) -> bool {
        &&& -0x800_0000 <= self.min_val <= 0 < self.max_val <= 0x800_0000
        &&& self.out_values@.len() == self.max_val - self.min_val
        &&& forall|i: int|
            0 <= i < self.out_values@.len() ==> self.min_val <= #[trigger] self.out_values@[i]
                < self.max_val
    }

    /// The table's output for input `x`.
    pub open spec fn entry(self, x: int) -> int {
        self.out_values@[x - self.min_val] as int
    }
}

/// Materialize one gadget's lookup table over the declared value domain
/// `[min_val, max_val)`; a table that does not cover the whole domain, or
/// holds a value outside it, is rejected, as is a domain over the circuit's
/// row budget.
pub fn load_lookup_table(
    min_val: i64,
    max_val: i64,
    num_rows: u64,
    out_values: Vec<i64>,
) -> (r: Result<LookupTable, CircuitError>)
    requires
        -0x800_0000 <= min_val <= 0 < max_val <= 0x800_0000,
    ensures
        match r {
            Ok(t) => {
                &&& t.wf()
                &&& t.min_val == min_val
                &&& t.max_val == max_val
                &&& t.out_values == out_values
                &&& max_val - min_val <= num_rows
            },
            Err(e) => {
                &&& (e == CircuitError::ValueOutOfRange || e == CircuitError::SizeMismatch)
                &&& (out_values@.len() != max_val - min_val || max_val - min_val > num_rows
                    || exists|i: int|
                    0 <= i < out_values@.len() && !(min_val <= #[trigger] out_values@[i]
                        < max_val))
            },
        },
{
    let domain: u64 = (max_val - min_val) as u64;
    if domain > num_rows {
        return Err(CircuitError::SizeMismatch);
    }
    if out_values.len() as u64 != domain {
        return Err(CircuitError::SizeMismatch);
    }
    let mut i: usize = 0;
    while i < out_values.len()
        invariant
            0 <= i <= out_values@.len(),
            min_val < max_val,
            forall|j: int| 0 <= j < i ==> min_val <= #[trigger] out_values@[j] < max_val,
        decreases out_values@.len() - i,
    {
        if out_values[i] < min_val || out_values[i] >= max_val {
            return Err(CircuitError::ValueOutOfRange);
        }
        i += 1;
    }
    Ok(LookupTable { min_val, max_val, out_values })
}

/// Look an input up in a gadget's table: an input outside the declared
/// domain is rejected at assignment time, never wrapped.
pub fn lookup(t: &LookupTable, x: i64) -> (r: Result<i64, CircuitError>)
    requires
        t.wf(),
    ensures
        match r {
            Ok(y) => t.min_val <= x < t.max_val && y == t.entry(x as int) && t.min_val <= y
                < t.max_val,
            Err(e) => e == CircuitError::ValueOutOfRange && !(t.min_val <= x < t.max_val),
        },
{
    if x < t.min_val || x >= t.max_val {
        return Err(CircuitError::ValueOutOfRange);
    }
    let idx: usize = (x - t.min_val) as usize;
    Ok(t.out_values[idx])
}

/// Pointwise rounding division of a value vector by one divisor.
pub open spec fn spec_var_div(a: Seq<int>, d: int) -> Seq<int> {
    Seq::new(a.len(), |i: int| spec_round_div(a[i], d))
}

/// The variable-divisor rounding-division gadget: divide every value by the
/// divisor cell's value, rounding to the nearest integer.
pub fn var_div_round(a: &Vec<i64>, d: i64) -> (r: Vec<i64>)
    requires
        0 < d <= 0x1_0000_0000,
        vals_bounded(a@.map_values(|x: i64| x as int), 0x1000_0000_0000_0000),
    ensures
        r@.map_values(|x: i64| x as int) == spec_var_div(a@.map_values(|x: i64| x as int), d as int),
{
    let mut out: Vec<i64> = Vec::new();
    let mut i: usize = 0;
    while i < a.len()
        invariant
            0 <= i <= a@.len(),
            0 < d <= 0x1_0000_0000,
            vals_bounded(a@.map_values(|x: i64| x as int), 0x1000_0000_0000_0000),
            out@.len() == i,
            forall|j: int| 0 <= j < i ==> out@[j] == spec_round_div(a@[j] as int, d as int),
        decreases a@.len() - i,
    {
        assert(a@.map_values(|x: i64| x as int)[i as int] == a@[i as int]);
        out.push(round_div(a[i], d));
        i += 1;
    }
    proof {
        assert(out@.map_values(|x: i64| x as int) =~= spec_var_div(
            a@.map_values(|x: i64| x as int),
            d as int,
        ));
    }
    out
}

/// The lookup tables materialized for one circuit at witness-assignment
/// time: the range-checked gadget kinds that were loaded, and one value
/// table per nonlinear gadget in use.
pub struct LoadedTables {
    pub rsqrt: Option<LookupTable>,
    pub exp: Option<LookupTable>,
    pub logistic: Option<LookupTable>,
}

impl LoadedTables {
    /// Every present table covers exactly the registry's value domain.
    pub open spec fn wf(self, cfg: GadgetConfig) -> bool {
        &&& match self.rsqrt {
            Some(t) => t.wf() && t.min_val == cfg.min_val && t.max_val == cfg.max_val,
            None => true,
        }
        &&& match self.exp {
            Some(t) => t.wf() && t.min_val == cfg.min_val && t.max_val == cfg.max_val,
            None => true,
        }
        &&& match self.logistic {
            Some(t) => t.wf() && t.min_val == cfg.min_val && t.max_val == cfg.max_val,
            None => true,
        }
    }
}

/// Lookup table coverage: every input admissible under the declared domain
/// `[min_val, max_val)` has an entry in a well-formed table, and the entry
/// is itself admissible.
pub proof fn lemma_lookup_table_coverage(t: LookupTable, x: int)
    requires
        t.wf(),
        t.min_val <= x < t.max_val,
    ensures
        0 <= x - t.min_val < t.out_values@.len(),
        t.min_val <= t.entry(x) < t.max_val,
{
}

} // verus!
