//! The array operations: binomial thinning, Poisson generation planning,
//! complex magnitude-squared reduction, and narrowing conversion.

use vstd::prelude::*;

use crate::array::NDArray;
use crate::array::checked_count_from;
use crate::array::count_from;
use crate::array::elem_count;
use crate::engine::lemma_run_chunks_bounds;
use crate::engine::lemma_run_chunks_flag;
use crate::engine::lemma_run_chunks_len;
use crate::engine::run_chunks;
use crate::engine::transform_chunked;
use crate::error::DomainError;
use crate::error::ParameterError;
use crate::param::RealBits;
use crate::rng::Xoshiro256pp;
use crate::rng::os_seed;
use crate::rng::seed_state;

verus! {

/// Rows per chunk used by the throughput entry point: chunk identity is a
/// pure function of position, fixed chunk size included.
pub const DEFAULT_CHUNK_ROWS: usize = 50;

/// The number of elements in one row of `shape`: the product of all
/// dimensions but the first.
pub open spec fn row_elems(shape: Seq<usize>) -> int {
    count_from(shape, 1)
}

/// The number of elements a chunk of `chunk_rows` rows covers, clamped
/// into `1..=elem_count(shape)` so that the chunked engine always makes
/// progress (an empty array still gets a positive, unused chunk size).
pub open spec fn chunk_elems(shape: Seq<usize>, chunk_rows: int) -> int {
    let ce = chunk_rows * row_elems(shape);
    let n = elem_count(shape);
    if 1 <= ce <= n {
        ce
    } else if n >= 1 {
        n
    } else {
        1
    }
}

/// The clamped chunk size is always positive.
pub proof fn lemma_chunk_elems_pos(shape: Seq<usize>, chunk_rows: int)
    ensures
        chunk_elems(shape, chunk_rows) >= 1,
{
}

/// Computes `chunk_elems` of the shape of an array holding `total`
/// elements.
fn effective_chunk(shape: &Vec<usize>, total: usize, chunk_rows: usize) -> (ce: usize)
    requires
        1 <= chunk_rows,
        total == elem_count(shape@),
    ensures
        ce == chunk_elems(shape@, chunk_rows as int),
        1 <= ce,
{
    let row = match checked_count_from(shape, 1) {
        Some(r) => r,
        None => {
            // The row itself is larger than the address space, so a chunk
            // of at least one row can only be clamped to the whole array.
            proof {
                assert(chunk_rows * row_elems(shape@) >= row_elems(shape@)) by (nonlinear_arith)
                    requires
                        chunk_rows >= 1,
                        row_elems(shape@) >= 0,
                ;
            }
            if total >= 1 {
                return total;
            } else {
                return 1;
            }
        },
    };
    match chunk_rows.checked_mul(row) {
        Some(ce) => {
            if 1 <= ce && ce <= total {
                ce
            } else if total >= 1 {
                total
            } else {
                1
            }
        },
        None => {
            if total >= 1 {
                total
            } else {
                1
            }
        },
    }
}

/// Binomial thinning with reproducible chunk streams. Every element `n`
/// must be a non-negative count; it is replaced by a draw from
/// Binomial(n, 1/2) — the number of survivors when each of `n` unit events
/// independently survives a fair coin flip. The array is processed in
/// chunks of `chunk_rows` rows, chunk `c` drawing from the seeded stream
/// jumped `c` times, so the whole result is a function of the data, the
/// shape, the seed and the chunk size alone: two calls with equal inputs
/// produce bit-identical output, however the chunks are scheduled. If any
/// element is negative the call fails with a `DomainError` carrying the
/// first offending value, and no output array is produced.
pub fn binom_split_det(a: NDArray<i32>, seed: &[u32; 8], chunk_rows: usize) -> (r: Result<
    NDArray<i32>,
    DomainError,
>)
    requires
        a.wf(),
        1 <= chunk_rows,
    ensures
        match r {
            Ok(out) => {
                &&& forall|i: int| 0 <= i < a.data@.len() ==> a.data@[i] >= 0
                &&& out.shape@ == a.shape@
                &&& out.wf()
                &&& out.data@ == run_chunks(
                    a.data@,
                    chunk_elems(a.shape@, chunk_rows as int) as nat,
                    seed_state(*seed),
                ).out
                &&& forall|i: int| 0 <= i < a.data@.len() ==> 0 <= #[trigger] out.data@[i] <= a.data@[i]
            },
            Err(e) => {
                &&& exists|i: int| 0 <= i < a.data@.len() && a.data@[i] < 0
                &&& e.offending_value < 0
                &&& exists|i: int| 0 <= i < a.data@.len() && a.data@[i] == e.offending_value
                &&& Some(e.offending_value) == run_chunks(
                    a.data@,
                    chunk_elems(a.shape@, chunk_rows as int) as nat,
                    seed_state(*seed),
                ).flag
            },
        },
{
    let total = a.data.len();
    let ce = effective_chunk(&a.shape, total, chunk_rows);
    let root = Xoshiro256pp::from_seed(seed);
    let (vals, flag) = transform_chunked(&a.data, ce, root);
    proof {
        lemma_run_chunks_len(a.data@, ce as nat, root);
        lemma_run_chunks_flag(a.data@, ce as nat, root);
        if forall|i: int| 0 <= i < a.data@.len() ==> a.data@[i] >= 0 {
            lemma_run_chunks_bounds(a.data@, ce as nat, root);
        }
    }
    match flag {
        Some(v) => Err(DomainError { offending_value: v }),
        None => Ok(NDArray { shape: a.shape, data: vals }),
    }
}

/// Binomial thinning with a throughput stream: the root seed is taken
/// fresh from the operating system's entropy source, so no two calls are
/// related and nothing beyond the elementwise bound is promised of the
/// values. Succeeds exactly when every element is a non-negative count;
/// the result has the shape of the input and every output element lies
/// between zero and the element it thins. A negative element makes the
/// whole call fail with a `DomainError` carrying the first offending
/// value observed; no partial output is ever returned.
pub fn binom_split(a: NDArray<i32>) -> (r: Result<NDArray<i32>, DomainError>)
    requires
        a.wf(),
    ensures
        match r {
            Ok(out) => {
                &&& forall|i: int| 0 <= i < a.data@.len() ==> a.data@[i] >= 0
                &&& out.shape@ == a.shape@
                &&& out.wf()
                &&& forall|i: int| 0 <= i < a.data@.len() ==> 0 <= #[trigger] out.data@[i] <= a.data@[i]
            },
            Err(e) => {
                &&& exists|i: int| 0 <= i < a.data@.len() && a.data@[i] < 0
                &&& e.offending_value < 0
                &&& exists|i: int| 0 <= i < a.data@.len() && a.data@[i] == e.offending_value
            },
        },
{
    let seed = os_seed();
    binom_split_det(a, &seed, DEFAULT_CHUNK_ROWS)
}

/// Validates the parameters of Poisson generation and returns the number
/// of elements to draw. The rate must be a strictly positive finite
/// number: zero, negative, infinite or NaN rates fail fast with a
/// `ParameterError`, before any array work. The element count of the
/// shape must fit the address space.
pub fn pois_plan(shape: &Vec<usize>, lambda: RealBits) -> (r: Result<usize, ParameterError>)
    requires
        elem_count(shape@) <= usize::MAX,
    ensures
        match r {
            Ok(n) => lambda.is_positive_finite() && n == elem_count(shape@),
            Err(_) => !lambda.is_positive_finite(),
        },
{
    if !lambda.positive_finite() {
        return Err(ParameterError);
    }
    match checked_count_from(shape, 0) {
        Some(n) => Ok(n),
        None => {
            // Unreachable: the precondition bounds the element count.
            proof {
                assert(false);
            }
            Err(ParameterError)
        },
    }
}

/// A complex number with integer parts.
#[derive(Clone, Copy, Debug, PartialEq, Eq, Structural)]
pub struct Complex {
    pub re: i32,
    pub im: i32,
}

/// The squared magnitude of a complex number: `re² + im²`.
pub open spec fn sqr_abs_val(c: Complex) -> int {
    c.re * c.re + c.im * c.im
}

/// Elementwise squared magnitude: each output element is `re² + im²` of
/// the corresponding input element. Pure and deterministic: no randomness
/// and no failure path, for every input array. The result is non-negative
/// by construction, hence the unsigned element type.
pub fn sqr_abs(a: NDArray<Complex>) -> (r: NDArray<u64>)
    requires
        a.wf(),
    ensures
        r.shape@ == a.shape@,
        r.wf(),
        r.data@.len() == a.data@.len(),
        forall|i: int| 0 <= i < a.data@.len() ==> r.data@[i] == sqr_abs_val(a.data@[i]),
{
    let mut out: Vec<u64> = Vec::with_capacity(a.data.len());
    let mut i: usize = 0;
    while i < a.data.len()
        invariant
            i <= a.data@.len(),
            out@.len() == i,
            forall|j: int| 0 <= j < i ==> out@[j] == sqr_abs_val(a.data@[j]),
        decreases a.data@.len() - i,
    {
        let c = a.data[i];
        proof {
            assert(c.re * c.re >= 0 && c.re * c.re <= 0x4000_0000_0000_0000) by (nonlinear_arith)
                requires
                    -0x8000_0000 <= c.re <= 0x7FFF_FFFF,
            ;
            assert(c.im * c.im >= 0 && c.im * c.im <= 0x4000_0000_0000_0000) by (nonlinear_arith)
                requires
                    -0x8000_0000 <= c.im <= 0x7FFF_FFFF,
            ;
        }
        let re2 = (c.re as i64) * (c.re as i64);
        let im2 = (c.im as i64) * (c.im as i64);
        out.push((re2 as u64) + (im2 as u64));
        i = i + 1;
    }
    NDArray { shape: a.shape, data: out }
}

/// Narrowing conversion to 32-bit integer counts. The caller guarantees
/// that every element is representable: out-of-range elements are a
/// contract violation, not a recoverable error, so the obligation sits in
/// the precondition rather than in a checked failure path.
pub fn to_i32(a: NDArray<u64>) -> (r: NDArray<i32>)
    requires
        a.wf(),
        forall|i: int| 0 <= i < a.data@.len() ==> a.data@[i] <= i32::MAX,
    ensures
        r.shape@ == a.shape@,
        r.wf(),
        forall|i: int| 0 <= i < a.data@.len() ==> r.data@[i] == a.data@[i],
{
    let mut out: Vec<i32> = Vec::with_capacity(a.data.len());
    let mut i: usize = 0;
    while i < a.data.len()
        invariant
            i <= a.data@.len(),
            out@.len() == i,
            forall|j: int| 0 <= j < a.data@.len() ==> a.data@[j] <= i32::MAX,
            forall|j: int| 0 <= j < i ==> out@[j] == a.data@[j],
        decreases a.data@.len() - i,
    {
        let v = a.data[i];
        out.push(v as i32);
        i = i + 1;
    }
    NDArray { shape: a.shape, data: out }
}

/// Binomial thinning is rank-agnostic: two arrays holding the same flat
/// data — one a reshaped or stacked copy of the other, of any rank —
/// succeed or fail together, under any seeds and any chunkings, and on
/// success every output element of either lies between zero and its input
/// element.
pub proof fn lemma_rank_agnostic(
    a: NDArray<i32>,
    b: NDArray<i32>,
    seed_a: [u32; 8],
    seed_b: [u32; 8],
    rows_a: int,
    rows_b: int,
)
    requires
        a.wf(),
        b.wf(),
        a.data@ == b.data@,
    ensures
        (run_chunks(a.data@, chunk_elems(a.shape@, rows_a) as nat, seed_state(seed_a)).flag
            is None) <==> (run_chunks(
            b.data@,
            chunk_elems(b.shape@, rows_b) as nat,
            seed_state(seed_b),
        ).flag is None),
        run_chunks(a.data@, chunk_elems(a.shape@, rows_a) as nat, seed_state(seed_a)).flag is None
            ==> forall|i: int|
            0 <= i < a.data@.len() ==> 0 <= #[trigger] run_chunks(
                a.data@,
                chunk_elems(a.shape@, rows_a) as nat,
                seed_state(seed_a),
            ).out[i] <= a.data@[i],
{
    let ce_a = chunk_elems(a.shape@, rows_a) as nat;
    let ce_b = chunk_elems(b.shape@, rows_b) as nat;
    lemma_chunk_elems_pos(a.shape@, rows_a);
    lemma_chunk_elems_pos(b.shape@, rows_b);
    lemma_run_chunks_flag(a.data@, ce_a, seed_state(seed_a));
    lemma_run_chunks_flag(b.data@, ce_b, seed_state(seed_b));
    if run_chunks(a.data@, ce_a, seed_state(seed_a)).flag is None {
        lemma_run_chunks_bounds(a.data@, ce_a, seed_state(seed_a));
    }
}

/// The seeded variant is reproducible: the thinned values are a pure
/// function of flat data, shape, seed and chunk size, so two arrays with
/// equal data and equal shapes, thinned with equal seeds and equal chunk
/// sizes, give identical outputs and identical flags — this is the spec
/// function that `binom_split_det` promises to equal, so two such calls
/// return bit-identical arrays no matter how many workers ran either.
pub proof fn lemma_det_reproducible(
    a: NDArray<i32>,
    b: NDArray<i32>,
    seed: [u32; 8],
    chunk_rows: int,
)
    requires
        a.wf(),
        b.wf(),
        a.data@ == b.data@,
        a.shape@ == b.shape@,
    ensures
        run_chunks(a.data@, chunk_elems(a.shape@, chunk_rows) as nat, seed_state(seed))
            == run_chunks(b.data@, chunk_elems(b.shape@, chunk_rows) as nat, seed_state(seed)),
{
}

} // verus!
