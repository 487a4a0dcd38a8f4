//! Dense n-dimensional arrays: a shape and flat row-major data.
//!
//! A shape is an ordered sequence of non-negative dimension sizes; the
//! element count of an array is the product of its dimensions, so a zero in
//! any dimension gives a valid, empty array. An array is well formed when
//! its flat data holds exactly as many elements as its shape describes.

use vstd::prelude::*;

verus! {

/// The product of the dimensions of `shape` from position `i` on; `1` when
/// no dimension remains. The element count of the whole shape is
/// `count_from(shape, 0)`.
pub open spec fn count_from(shape: Seq<usize>, i: int) -> int
    decreases shape.len() - i,
{
    if i < 0 || i >= shape.len() {
        1
    } else {
        shape[i] * count_from(shape, i + 1)
    }
}

/// The number of elements an array of shape `shape` holds.
pub open spec fn elem_count(shape: Seq<usize>) -> int {
    count_from(shape, 0)
}

/// A zero dimension anywhere at or after position `i` makes the product
/// from `i` zero.
pub proof fn lemma_count_zero_dim(shape: Seq<usize>, i: int, j: int)
    requires
        0 <= i <= j < shape.len(),
        shape[j] == 0,
    ensures
        count_from(shape, i) == 0,
    decreases j - i,
{
    if i < j {
        lemma_count_zero_dim(shape, i + 1, j);
    }
}

/// When every dimension at or after position `i` is positive, so is the
/// product from `i`.
pub proof fn lemma_count_pos(shape: Seq<usize>, i: int)
    requires
        forall|j: int| i <= j < shape.len() ==> shape[j] >= 1,
    ensures
        count_from(shape, i) >= 1,
    decreases shape.len() - i,
{
    if 0 <= i < shape.len() {
        lemma_count_pos(shape, i + 1);
        assert(shape[i] * count_from(shape, i + 1) >= 1) by (nonlinear_arith)
            requires
                shape[i] >= 1,
                count_from(shape, i + 1) >= 1,
        ;
    }
}

/// Computes the product of the dimensions of `shape` from position `from`
/// on, reporting `None` when it does not fit in `usize`.
pub fn checked_count_from(shape: &Vec<usize>, from: usize) -> (r: Option<usize>)
    ensures
        match r {
            Some(n) => n == count_from(shape@, from as int),
            None => count_from(shape@, from as int) > usize::MAX,
        },
{
    // A zero dimension settles the product regardless of overflow elsewhere.
    let mut i: usize = from;
    while i < shape.len()
        invariant
            from <= i,
            forall|j: int| from <= j < i ==> shape@[j] >= 1,
        decreases shape@.len() - i,
    {
        if shape[i] == 0 {
            proof {
                lemma_count_zero_dim(shape@, from as int, i as int);
            }
            return Some(0);
        }
        i = i + 1;
    }
    // Every remaining dimension is positive: partial products stay within
    // the final product, so overflow of a step means overflow of the whole.
    let mut acc: usize = 1;
    let mut k: usize = from;
    while k < shape.len()
        invariant
            from <= k,
            forall|j: int| from <= j < shape@.len() ==> shape@[j] >= 1,
            acc >= 1,
            acc * count_from(shape@, k as int) == count_from(shape@, from as int),
        decreases shape@.len() - k,
    {
        let ghost rest = count_from(shape@, k as int + 1);
        proof {
            lemma_count_pos(shape@, k as int + 1);
            assert(acc * (shape@[k as int] * rest) == (acc * shape@[k as int]) * rest)
                by (nonlinear_arith);
        }
        match acc.checked_mul(shape[k]) {
            Some(a2) => {
                proof {
                    assert(a2 >= 1) by (nonlinear_arith)
                        requires
                            a2 == acc * shape@[k as int],
                            acc >= 1,
                            shape@[k as int] >= 1,
                    ;
                }
                acc = a2;
            },
            None => {
                proof {
                    assert((acc * shape@[k as int]) * rest >= acc * shape@[k as int])
                        by (nonlinear_arith)
                        requires
                            rest >= 1,
                            acc * shape@[k as int] >= 0,
                    ;
                }
                return None;
            },
        }
        k = k + 1;
    }
    Some(acc)
}

/// A dense n-dimensional array: an ordered sequence of dimension sizes and
/// the elements in row-major order.
#[derive(Clone, Debug)]
pub struct NDArray<T> {
    pub shape: Vec<usize>,
    pub data: Vec<T>,
}

impl<T> NDArray<T> {
    /// Well formed: the flat data holds exactly as many elements as the
    /// shape describes.
    pub open spec fn wf(self) -> bool {
        self.data@.len() == elem_count(self.shape@)
    }

    /// Builds an array from a shape and flat row-major data. Succeeds
    /// exactly when the data length equals the element count of the shape.
    pub fn new(shape: Vec<usize>, data: Vec<T>) -> (r: Option<NDArray<T>>)
        ensures
            match r {
                Some(a) => a.shape@ == shape@ && a.data@ == data@ && a.wf(),
                None => data@.len() != elem_count(shape@),
            },
    {
        let data_len = data.len();
        match checked_count_from(&shape, 0) {
            Some(n) => {
                if n == data_len {
                    Some(NDArray { shape, data })
                } else {
                    None
                }
            },
            None => None,
        }
    }

    /// The number of elements the array holds.
    pub fn len(&self) -> (n: usize)
        ensures
            n == self.data@.len(),
    {
        self.data.len()
    }
}

} // verus!
