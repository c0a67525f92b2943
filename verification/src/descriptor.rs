//! Tensor descriptors: the per-tensor metadata recorded in a container
//! header, and the arithmetic over a declared shape that decides how many
//! payload bytes the tensor occupies.

use vstd::prelude::*;
use crate::scheme::{Scheme, block_size_of, code_of_scheme, scheme_of_code, type_size_of};
use candle_core::quantized::GgmlDType;

verus! {

/// Raw header fields for one tensor, as the header scan yields them and
/// before the dtype code is checked against the supported schemes.  The
/// opaque `dtype` is the scanned dtype value itself, kept to hand back to
/// the decoder; `code` is its plain numeric form.
pub struct RawInfo {
    pub dims: Vec<usize>,
    pub code: u32,
    pub offset: u64,
    pub dtype: GgmlDType,
}

impl View for RawInfo {
    type V = (Seq<usize>, u32, u64);

    open spec fn view(&self) -> Self::V {
        (self.dims@, self.code, self.offset)
    }
}

/// One tensor's location and shape metadata: the declared shape, the
/// quantization scheme, and the byte offset of the payload relative to the
/// tensor-data origin.  Created once during the header scan and immutable
/// thereafter.
pub struct Descriptor {
    pub shape: Vec<usize>,
    pub scheme: Scheme,
    pub offset: u64,
    /// The scanned dtype in the decoder's own representation; always
    /// denotes the same scheme as `scheme`.
    pub dtype: GgmlDType,
}

impl View for Descriptor {
    type V = (Seq<usize>, u32, u64);

    open spec fn view(&self) -> Self::V {
        (self.shape@, code_of_scheme(self.scheme), self.offset)
    }
}

/// The number of elements in a tensor of the given shape.
pub open spec fn elem_count(dims: Seq<usize>) -> int
    decreases dims.len(),
{
    if dims.len() == 0 {
        1
    } else {
        elem_count(dims.drop_last()) * dims.last()
    }
}

/// The exact payload size in bytes of `dims` elements under scheme `s`,
/// meaningful when the element count divides into whole blocks.
pub open spec fn needed_bytes(dims: Seq<usize>, s: Scheme) -> int {
    elem_count(dims) / block_size_of(s) as int * type_size_of(s) as int
}

/// A well-formed raw header entry: no zero dimension, an element count
/// that fits the machine's size type, and a known dtype code.
pub open spec fn raw_wf(r: (Seq<usize>, u32, u64)) -> bool {
    &&& forall|i: int| 0 <= i < r.0.len() ==> r.0[i] >= 1
    &&& elem_count(r.0) <= usize::MAX
    &&& scheme_of_code(r.1) is Some
}

impl Descriptor {
    /// A well-formed descriptor: positive dimensions and an element count
    /// that fits the machine's size type.
    pub open spec fn wf(&self) -> bool {
        &&& forall|i: int| 0 <= i < self.shape@.len() ==> self.shape@[i] >= 1
        &&& elem_count(self.shape@) <= usize::MAX
    }
}

/// Extending a shape prefix by one dimension multiplies its element count
/// by that dimension.
pub proof fn lemma_elem_count_take_step(dims: Seq<usize>, i: int)
    requires
        0 <= i < dims.len(),
    ensures
        elem_count(dims.take(i + 1)) == elem_count(dims.take(i)) * dims[i],
{
    assert(dims.take(i + 1).drop_last() =~= dims.take(i));
    assert(dims.take(i + 1).last() == dims[i]);
}

/// A shape without zero dimensions holds at least one element.
pub proof fn lemma_elem_count_positive(dims: Seq<usize>)
    requires
        forall|i: int| 0 <= i < dims.len() ==> dims[i] >= 1,
    ensures
        elem_count(dims) >= 1,
    decreases dims.len(),
{
    if dims.len() > 0 {
        lemma_elem_count_positive(dims.drop_last());
        let a = elem_count(dims.drop_last());
        let b = dims.last() as int;
        assert(a * b >= 1) by (nonlinear_arith)
            requires
                a >= 1,
                b >= 1,
        ;
    }
}

/// With no zero dimension, the element count of a shape prefix never
/// exceeds the element count of the whole shape.
pub proof fn lemma_elem_count_ge_prefix(dims: Seq<usize>, i: int)
    requires
        0 <= i <= dims.len(),
        forall|j: int| 0 <= j < dims.len() ==> dims[j] >= 1,
    ensures
        elem_count(dims) >= elem_count(dims.take(i)),
    decreases dims.len() - i,
{
    if i == dims.len() {
        assert(dims.take(i) =~= dims);
    } else {
        lemma_elem_count_take_step(dims, i);
        let a = elem_count(dims.take(i));
        let b = dims[i] as int;
        assert(forall|j: int| 0 <= j < dims.take(i).len() ==> dims.take(i)[j] >= 1);
        lemma_elem_count_positive(dims.take(i));
        assert(a * b >= a) by (nonlinear_arith)
            requires
                a >= 1,
                b >= 1,
        ;
        lemma_elem_count_ge_prefix(dims, i + 1);
    }
}

/// Computes the element count of a shape with no zero dimension, or
/// reports that it exceeds the machine's size type.
pub fn checked_elem_count(dims: &Vec<usize>) -> (r: Option<usize>)
    requires
        forall|i: int| 0 <= i < dims@.len() ==> dims@[i] >= 1,
    ensures
        r matches Some(n) ==> n == elem_count(dims@),
        r is None ==> elem_count(dims@) > usize::MAX,
{
    let mut acc: usize = 1;
    let n = dims.len();
    assert(dims@.take(0) =~= Seq::<usize>::empty());
    for i in 0..n
        invariant
            n == dims@.len(),
            forall|j: int| 0 <= j < dims@.len() ==> dims@[j] >= 1,
            acc == elem_count(dims@.take(i as int)),
    {
        proof {
            lemma_elem_count_take_step(dims@, i as int);
        }
        match acc.checked_mul(dims[i]) {
            Some(v) => {
                acc = v;
            },
            None => {
                proof {
                    lemma_elem_count_ge_prefix(dims@, i as int + 1);
                }
                return None;
            },
        }
    }
    proof {
        assert(dims@.take(n as int) =~= dims@);
    }
    Some(acc)
}

/// Decides whether every dimension of a shape is positive.
pub fn dims_positive(dims: &Vec<usize>) -> (r: bool)
    ensures
        r == forall|i: int| 0 <= i < dims@.len() ==> dims@[i] >= 1,
{
    let n = dims.len();
    for i in 0..n
        invariant
            n == dims@.len(),
            forall|j: int| 0 <= j < i ==> dims@[j] >= 1,
    {
        if dims[i] == 0 {
            return false;
        }
    }
    true
}

} // verus!
