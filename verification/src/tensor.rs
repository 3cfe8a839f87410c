//! Tensors: N-dimensional arrays of quantized field values, identified by a
//! shape and a flat, row-major element vector.

use vstd::prelude::*;
use crate::felt::Felt;

verus! {

/// Number of elements a shape describes: the product of its dimensions.
pub open spec fn shape_size(s: Seq<usize>) -> int
    decreases s.len(),
{
    if s.len() == 0 {
        1
    } else {
        shape_size(s.drop_last()) * s.last()
    }
}

/// The mathematical model of a tensor: its shape and the signed quantized
/// values its elements encode, in row-major order.
#[verifier::ext_equal]
pub struct TensorView {
    pub shape: Seq<usize>,
    pub vals: Seq<int>,
}

/// An N-dimensional array of quantized values, stored flat in row-major
/// order. The shape is part of the tensor's identity.
#[derive(Debug)]
pub struct Tensor {
    pub shape: Vec<usize>,
    pub data: Vec<Felt>,
}

impl Tensor {
    /// The element count matches the shape, and every element is a
    /// canonical field value.
    pub open spec fn wf(self) -> bool {
        &&& shape_size(self.shape@) == self.data@.len()
        &&& forall|i: int| 0 <= i < self.data@.len() ==> (#[trigger] self.data@[i]).wf()
    }

    /// All element values lie in the declared range `[min_val, max_val)`.
    pub open spec fn in_range(self, min_val: int, max_val: int) -> bool {
        forall|i: int|
            0 <= i < self.data@.len() ==> min_val <= (#[trigger] self.data@[i]).signed_rep()
                < max_val
    }
}

impl View for Tensor {
    type V = TensorView;

    open spec fn view(&self) -> TensorView {
        TensorView {
            shape: self.shape@,
            vals: Seq::new(self.data@.len(), |i: int| self.data@[i].signed_rep()),
        }
    }
}

/// Copy a shape vector.
pub fn copy_dims(v: &Vec<usize>) -> (r: Vec<usize>)
    ensures
        r@ == v@,
{
    let mut out: Vec<usize> = Vec::new();
    let mut i: usize = 0;
    while i < v.len()
        invariant
            0 <= i <= v@.len(),
            out@ =~= v@.take(i as int),
        decreases v@.len() - i,
    {
        out.push(v[i]);
        i += 1;
    }
    proof {
        assert(v@.take(v@.len() as int) =~= v@);
    }
    out
}

/// Copy a parameter vector.
pub fn copy_i64s(v: &Vec<i64>) -> (r: Vec<i64>)
    ensures
        r@ == v@,
{
    let mut out: Vec<i64> = Vec::new();
    let mut i: usize = 0;
    while i < v.len()
        invariant
            0 <= i <= v@.len(),
            out@ =~= v@.take(i as int),
        decreases v@.len() - i,
    {
        out.push(v[i]);
        i += 1;
    }
    proof {
        assert(v@.take(v@.len() as int) =~= v@);
    }
    out
}

/// Copy a tensor; tensors are immutable once produced, so a copy stands for
/// a borrowed reference.
pub fn tensor_copy(t: &Tensor) -> (r: Tensor)
    ensures
        r.shape@ == t.shape@,
        r.data@ == t.data@,
        r@ == t@,
{
    let shape = copy_dims(&t.shape);
    let mut data: Vec<Felt> = Vec::new();
    let mut i: usize = 0;
    while i < t.data.len()
        invariant
            0 <= i <= t.data@.len(),
            data@ =~= t.data@.take(i as int),
        decreases t.data@.len() - i,
    {
        data.push(t.data[i]);
        i += 1;
    }
    proof {
        assert(t.data@.take(t.data@.len() as int) =~= t.data@);
    }
    let r = Tensor { shape, data };
    proof {
        assert(r@ =~= t@);
    }
    r
}

/// Whether two shape vectors describe the same shape.
pub open spec fn shape_eq(a: Seq<usize>, b: Seq<usize>) -> bool {
    a =~= b
}

/// Compare two shapes element for element.
pub fn shapes_equal(a: &Vec<usize>, b: &Vec<usize>) -> (r: bool)
    ensures
        r == shape_eq(a@, b@),
{
    if a.len() != b.len() {
        return false;
    }
    let mut i: usize = 0;
    while i < a.len()
        invariant
            0 <= i <= a@.len(),
            a@.len() == b@.len(),
            forall|j: int| 0 <= j < i ==> a@[j] == b@[j],
        decreases a@.len() - i,
    {
        if a[i] != b[i] {
            return false;
        }
        i += 1;
    }
    assert(a@ =~= b@);
    true
}

/// The element count a shape describes, or `None` where it exceeds the
/// range a length can take.
pub fn shape_num_elements(shape: &Vec<usize>) -> (r: Option<u64>)
    ensures
        match r {
            Some(n) => n == shape_size(shape@),
            None => shape_size(shape@) > u64::MAX,
        },
{
    let mut has_zero = false;
    let mut i: usize = 0;
    while i < shape.len()
        invariant
            0 <= i <= shape@.len(),
            has_zero <==> exists|j: int| 0 <= j < i && shape@[j] == 0,
        decreases shape@.len() - i,
    {
        if shape[i] == 0 {
            has_zero = true;
        }
        i += 1;
    }
    if has_zero {
        proof {
            lemma_shape_size_zero(shape@);
        }
        return Some(0);
    }
    let mut acc: u128 = 1;
    let mut i: usize = 0;
    while i < shape.len()
        invariant
            0 <= i <= shape@.len(),
            forall|j: int| 0 <= j < shape@.len() ==> shape@[j] != 0,
            acc == shape_size(shape@.take(i as int)),
            1 <= acc <= 0xFFFF_FFFF_FFFF_FFFF_FFFF_FFFF_FFFF_FFFE,
        decreases shape@.len() - i,
    {
        if acc > 0xFFFF_FFFF_FFFF_FFFFu128 {
            proof {
                lemma_shape_size_grows(shape@, i as int);
            }
            return None;
        }
        proof {
            assert(shape@.take(i as int + 1).drop_last() =~= shape@.take(i as int));
            assert(1 <= acc * shape@[i as int] <= 0xFFFF_FFFF_FFFF_FFFF
                * 0xFFFF_FFFF_FFFF_FFFF) by (nonlinear_arith)
                requires
                    1 <= acc <= 0xFFFF_FFFF_FFFF_FFFF,
                    1 <= shape@[i as int] <= 0xFFFF_FFFF_FFFF_FFFF,
            ;
        }
        acc = acc * (shape[i] as u128);
        i += 1;
    }
    proof {
        assert(shape@.take(shape@.len() as int) =~= shape@);
    }
    if acc > 0xFFFF_FFFF_FFFF_FFFFu128 {
        return None;
    }
    Some(acc as u64)
}

/// A shape with a zero dimension describes the empty tensor.
proof fn lemma_shape_size_zero(s: Seq<usize>)
    requires
        exists|j: int| 0 <= j < s.len() && s[j] == 0,
    ensures
        shape_size(s) == 0,
    decreases s.len(),
{
    let j = choose|j: int| 0 <= j < s.len() && s[j] == 0;
    if j == s.len() - 1 {
        assert(shape_size(s) == shape_size(s.drop_last()) * 0);
        assert(shape_size(s.drop_last()) * 0 == 0) by (nonlinear_arith);
    } else {
        assert(0 <= j < s.drop_last().len() && s.drop_last()[j] == 0);
        lemma_shape_size_zero(s.drop_last());
        assert(shape_size(s) == 0 * s.last());
        assert(0 * s.last() == 0) by (nonlinear_arith);
    }
}

/// With no zero dimension, extending a prefix never shrinks its size.
proof fn lemma_shape_size_grows(s: Seq<usize>, i: int)
    requires
        0 <= i <= s.len(),
        forall|j: int| 0 <= j < s.len() ==> s[j] != 0,
    ensures
        shape_size(s) >= shape_size(s.take(i)),
        shape_size(s.take(i)) >= 1,
    decreases s.len() - i,
{
    assert(forall|j: int| 0 <= j < i ==> s.take(i)[j] != 0);
    lemma_shape_size_pos(s.take(i));
    if i == s.len() {
        assert(s.take(i) =~= s);
    } else {
        lemma_shape_size_grows(s, i + 1);
        assert(s.take(i + 1).drop_last() =~= s.take(i));
        assert(shape_size(s.take(i + 1)) == shape_size(s.take(i)) * s[i]);
        assert(shape_size(s.take(i)) * s[i] >= shape_size(s.take(i))) by (nonlinear_arith)
            requires
                s[i] >= 1,
                shape_size(s.take(i)) >= 1,
        ;
    }
}

/// With no zero dimension, a shape's size is at least one.
proof fn lemma_shape_size_pos(s: Seq<usize>)
    requires
        forall|j: int| 0 <= j < s.len() ==> s[j] != 0,
    ensures
        shape_size(s) >= 1,
    decreases s.len(),
{
    if s.len() > 0 {
        lemma_shape_size_pos(s.drop_last());
        assert(shape_size(s.drop_last()) * s.last() >= 1) by (nonlinear_arith)
            requires
                shape_size(s.drop_last()) >= 1,
                s.last() >= 1,
        ;
    }
}

} // verus!
