//! The elementwise transform engine for binomial thinning.
//!
//! The engine walks the flat data of an array in fixed-size chunks. Every
//! chunk is processed with its own pseudorandom stream — the root stream
//! jumped once per preceding chunk — and its own clean failure flag, so the
//! values a chunk produces depend only on the data, the chunk size and the
//! root state, never on how chunks are scheduled. Within a chunk, elements
//! are handled left to right: the flag is tested before the draw, a
//! negative element sets the flag and receives the neutral fallback value,
//! and once the flag is set the remaining elements of the chunk receive
//! the fallback without consuming draws. Chunk outputs are concatenated;
//! the first set flag wins. A set flag means the whole result is discarded,
//! so fallback values are never observable.

use vstd::prelude::*;

use crate::rng::Xoshiro256pp;
use crate::rng::chunk_stream;
use crate::rng::jump_state;
use crate::rng::lemma_chunk_stream_shift;
use crate::sampler::binom_draw;
use crate::sampler::binom_out;
use crate::sampler::binom_state;
use crate::sampler::lemma_binom_out_le;

verus! {

/// The outcome of running the thinning transform over one segment of
/// elements: the output values, the stream state afterwards, and the
/// failure flag carrying the first offending value, if any.
pub struct ElemRun {
    pub out: Seq<i32>,
    pub g: Xoshiro256pp,
    pub flag: Option<i32>,
}

/// The thinning transform over a segment, left to right. A clean run draws
/// Binomial(n, 1/2) for each element `n`; a negative element sets the flag
/// and receives the fallback value 0; once the flag is set, the remaining
/// elements receive the fallback without advancing the stream.
pub open spec fn run_elems(data: Seq<i32>, g: Xoshiro256pp, flag: Option<i32>) -> ElemRun
    decreases data.len(),
{
    if data.len() == 0 {
        ElemRun { out: Seq::empty(), g, flag }
    } else {
        let n = data[0];
        if flag is Some {
            let rest = run_elems(data.skip(1), g, flag);
            ElemRun { out: seq![0i32] + rest.out, g: rest.g, flag: rest.flag }
        } else if n < 0 {
            let rest = run_elems(data.skip(1), g, Some(n));
            ElemRun { out: seq![0i32] + rest.out, g: rest.g, flag: rest.flag }
        } else {
            let rest = run_elems(data.skip(1), binom_state(g, n as nat), flag);
            ElemRun {
                out: seq![(binom_out(g, n as nat) as i32)] + rest.out,
                g: rest.g,
                flag: rest.flag,
            }
        }
    }
}

/// A run produces one output element per input element.
pub proof fn lemma_run_elems_len(data: Seq<i32>, g: Xoshiro256pp, flag: Option<i32>)
    ensures
        run_elems(data, g, flag).out.len() == data.len(),
    decreases data.len(),
{
    if data.len() > 0 {
        let n = data[0];
        if flag is Some {
            lemma_run_elems_len(data.skip(1), g, flag);
        } else if n < 0 {
            lemma_run_elems_len(data.skip(1), g, Some(n));
        } else {
            lemma_run_elems_len(data.skip(1), binom_state(g, n as nat), flag);
        }
    }
}

/// A flag that is set when the run starts stays set to the same value.
pub proof fn lemma_run_elems_flag_sticks(data: Seq<i32>, g: Xoshiro256pp, f: i32)
    ensures
        run_elems(data, g, Some(f)).flag == Some(f),
        run_elems(data, g, Some(f)).g == g,
    decreases data.len(),
{
    if data.len() > 0 {
        lemma_run_elems_flag_sticks(data.skip(1), g, f);
    }
}

/// A clean run ends clean exactly when no element is negative; when it ends
/// flagged, the flag carries a negative element of the segment.
pub proof fn lemma_run_elems_flag(data: Seq<i32>, g: Xoshiro256pp)
    ensures
        (run_elems(data, g, None).flag is None) <==> (forall|i: int|
            0 <= i < data.len() ==> data[i] >= 0),
        run_elems(data, g, None).flag matches Some(v) ==> v < 0 && (exists|i: int|
            0 <= i < data.len() && data[i] == v),
    decreases data.len(),
{
    if data.len() > 0 {
        let n = data[0];
        if n < 0 {
            lemma_run_elems_flag_sticks(data.skip(1), g, n);
            assert(data[0] < 0);
        } else {
            lemma_run_elems_flag(data.skip(1), binom_state(g, n as nat));
            let rest = run_elems(data.skip(1), binom_state(g, n as nat), None::<i32>);
            if rest.flag is None {
                assert forall|i: int| 0 <= i < data.len() implies data[i] >= 0 by {
                    if i > 0 {
                        assert(data.skip(1)[i - 1] == data[i]);
                    }
                }
            } else {
                let i0 = choose|i: int|
                    0 <= i < data.skip(1).len() && data.skip(1)[i] == rest.flag->Some_0;
                assert(data[i0 + 1] == data.skip(1)[i0]);
            }
        }
    }
}

/// On a clean run over non-negative data, every output element is a count
/// between zero and the element it thins.
pub proof fn lemma_run_elems_bounds(data: Seq<i32>, g: Xoshiro256pp)
    requires
        forall|i: int| 0 <= i < data.len() ==> data[i] >= 0,
    ensures
        forall|i: int|
            0 <= i < data.len() ==> 0 <= #[trigger] run_elems(data, g, None).out[i] <= data[i],
    decreases data.len(),
{
    lemma_run_elems_len(data, g, None);
    if data.len() > 0 {
        let n = data[0];
        assert(n >= 0);
        let gp = binom_state(g, n as nat);
        assert(forall|i: int| 0 <= i < data.skip(1).len() ==> data.skip(1)[i] >= 0);
        lemma_run_elems_bounds(data.skip(1), gp);
        lemma_run_elems_len(data.skip(1), gp, None);
        lemma_binom_out_le(g, n as nat);
        let rest = run_elems(data.skip(1), gp, None::<i32>);
        assert forall|i: int| 0 <= i < data.len() implies 0 <= #[trigger] run_elems(
            data,
            g,
            None,
        ).out[i] <= data[i] by {
            if i == 0 {
                assert(run_elems(data, g, None).out[0] == binom_out(g, n as nat) as i32);
            } else {
                assert(run_elems(data, g, None).out[i] == rest.out[i - 1]);
                assert(0 <= rest.out[i - 1] <= data.skip(1)[i - 1]);
                assert(data.skip(1)[i - 1] == data[i]);
            }
        }
    }
}

/// The outcome of the chunked transform over whole data: the output values
/// and the first failure flag among the chunks.
pub struct ChunkRun {
    pub out: Seq<i32>,
    pub flag: Option<i32>,
}

/// The chunked transform: consecutive chunks of `ce` elements (the last
/// possibly shorter), chunk `c` drawing from the root state jumped `c`
/// times and starting with a clean flag; outputs are concatenated and the
/// first set flag wins.
pub open spec fn run_chunks(data: Seq<i32>, ce: nat, g: Xoshiro256pp) -> ChunkRun
    decreases data.len(),
{
    if data.len() == 0 || ce == 0 {
        ChunkRun { out: Seq::empty(), flag: None }
    } else {
        let take = if ce <= data.len() {
            ce as int
        } else {
            data.len() as int
        };
        let head = run_elems(data.take(take), g, None);
        let rest = run_chunks(data.skip(take), ce, jump_state(g));
        ChunkRun {
            out: head.out + rest.out,
            flag: if head.flag is Some {
                head.flag
            } else {
                rest.flag
            },
        }
    }
}

/// The chunked transform produces one output element per input element.
pub proof fn lemma_run_chunks_len(data: Seq<i32>, ce: nat, g: Xoshiro256pp)
    requires
        1 <= ce,
    ensures
        run_chunks(data, ce, g).out.len() == data.len(),
    decreases data.len(),
{
    if data.len() > 0 && ce > 0 {
        let take = if ce <= data.len() {
            ce as int
        } else {
            data.len() as int
        };
        lemma_run_elems_len(data.take(take), g, None);
        lemma_run_chunks_len(data.skip(take), ce, jump_state(g));
    }
}

/// The chunked transform ends clean exactly when no element is negative;
/// when it ends flagged, the flag carries a negative element of the data.
pub proof fn lemma_run_chunks_flag(data: Seq<i32>, ce: nat, g: Xoshiro256pp)
    ensures
        (run_chunks(data, ce, g).flag is None) <==> (ce == 0 || forall|i: int|
            0 <= i < data.len() ==> data[i] >= 0),
        run_chunks(data, ce, g).flag matches Some(v) ==> v < 0 && (exists|i: int|
            0 <= i < data.len() && data[i] == v),
    decreases data.len(),
{
    if data.len() > 0 && ce > 0 {
        let take = if ce <= data.len() {
            ce as int
        } else {
            data.len() as int
        };
        let head = data.take(take);
        let tail = data.skip(take);
        lemma_run_elems_flag(head, g);
        lemma_run_chunks_flag(tail, ce, jump_state(g));
        let hr = run_elems(head, g, None::<i32>);
        let tr = run_chunks(tail, ce, jump_state(g));
        if hr.flag is None && tr.flag is None {
            assert forall|i: int| 0 <= i < data.len() implies data[i] >= 0 by {
                if i < take {
                    assert(head[i] == data[i]);
                } else {
                    assert(tail[i - take] == data[i]);
                }
            }
        } else if hr.flag is Some {
            let v = hr.flag->Some_0;
            let i0 = choose|i: int| 0 <= i < head.len() && head[i] == v;
            assert(data[i0] == head[i0]);
            assert(data[i0] < 0);
        } else {
            let v = tr.flag->Some_0;
            let i0 = choose|i: int| 0 <= i < tail.len() && tail[i] == v;
            assert(data[i0 + take] == tail[i0]);
            assert(data[i0 + take] < 0);
        }
    }
}

/// On a clean chunked run over non-negative data, every output element is a
/// count between zero and the element it thins.
pub proof fn lemma_run_chunks_bounds(data: Seq<i32>, ce: nat, g: Xoshiro256pp)
    requires
        1 <= ce,
        forall|i: int| 0 <= i < data.len() ==> data[i] >= 0,
    ensures
        forall|i: int|
            0 <= i < data.len() ==> 0 <= #[trigger] run_chunks(data, ce, g).out[i] <= data[i],
    decreases data.len(),
{
    lemma_run_chunks_len(data, ce, g);
    if data.len() > 0 && ce > 0 {
        let take = if ce <= data.len() {
            ce as int
        } else {
            data.len() as int
        };
        let head = data.take(take);
        let tail = data.skip(take);
        assert(forall|i: int| 0 <= i < head.len() ==> head[i] >= 0);
        assert(forall|i: int| 0 <= i < tail.len() ==> tail[i] >= 0);
        lemma_run_elems_bounds(head, g);
        lemma_run_elems_len(head, g, None);
        lemma_run_chunks_bounds(tail, ce, jump_state(g));
        lemma_run_chunks_len(tail, ce, jump_state(g));
        let hr = run_elems(head, g, None::<i32>);
        let tr = run_chunks(tail, ce, jump_state(g));
        assert forall|i: int| 0 <= i < data.len() implies 0 <= #[trigger] run_chunks(
            data,
            ce,
            g,
        ).out[i] <= data[i] by {
            if i < take {
                assert(run_chunks(data, ce, g).out[i] == hr.out[i]);
                assert(head[i] == data[i]);
            } else {
                assert(run_chunks(data, ce, g).out[i] == tr.out[i - take]);
                assert(tail[i - take] == data[i]);
            }
        }
    }
}

/// Chunks partition the data exactly, with no overlap and full coverage,
/// and never depend on scheduling: slice `[c*ce, min((c+1)*ce, len))` of
/// the chunked transform's output is precisely a clean elementwise run
/// over the same slice of the input, drawing from the root stream jumped
/// `c` times — exactly what a worker handed chunk `c` computes on its own,
/// so assembling per-chunk runs in index order rebuilds the whole result
/// whatever order the workers ran in.
pub proof fn lemma_run_chunks_decompose(data: Seq<i32>, ce: nat, g: Xoshiro256pp, c: nat)
    requires
        1 <= ce,
        c * ce < data.len(),
    ensures
        ({
            let start = (c * ce) as int;
            let end = if (c + 1) * ce <= data.len() {
                ((c + 1) * ce) as int
            } else {
                data.len() as int
            };
            run_chunks(data, ce, g).out.subrange(start, end) == run_elems(
                data.subrange(start, end),
                chunk_stream(g, c),
                None,
            ).out
        }),
    decreases c,
{
    let len = data.len() as int;
    let start = (c * ce) as int;
    let end = if (c + 1) * ce <= data.len() {
        ((c + 1) * ce) as int
    } else {
        len
    };
    assert((c + 1) * ce == c * ce + ce) by (nonlinear_arith);
    let take = if ce <= data.len() {
        ce as int
    } else {
        len
    };
    let head = run_elems(data.take(take), g, None::<i32>);
    let rest = run_chunks(data.skip(take), ce, jump_state(g));
    lemma_run_elems_len(data.take(take), g, None);
    if c == 0 {
        assert(chunk_stream(g, 0) == g);
        assert(c * ce == 0) by (nonlinear_arith)
            requires
                c == 0,
        ;
        assert(end == take);
        assert(run_chunks(data, ce, g).out.subrange(0, end) =~= head.out);
        assert(data.take(take) =~= data.subrange(0, end));
        assert(data.take(take) == data.subrange(start, end));
        assert(chunk_stream(g, c) == g);
    } else {
        assert(ce <= c * ce) by (nonlinear_arith)
            requires
                1 <= c,
                1 <= ce,
        ;
        assert(take == ce);
        let tail = data.skip(ce as int);
        assert((c - 1) * ce == c * ce - ce) by (nonlinear_arith);
        assert(((c - 1) + 1) * ce == c * ce) by (nonlinear_arith);
        lemma_chunk_stream_shift(g, c);
        lemma_run_chunks_decompose(tail, ce, jump_state(g), (c - 1) as nat);
        let start_t = ((c - 1) * ce) as int;
        let end_t = if c * ce <= tail.len() {
            (c * ce) as int
        } else {
            tail.len() as int
        };
        assert(start_t == start - ce && end_t == end - ce);
        assert(data.subrange(start, end) =~= tail.subrange(start_t, end_t));
        lemma_run_chunks_len(tail, ce, jump_state(g));
        assert(run_chunks(data, ce, g).out.subrange(start, end) =~= rest.out.subrange(
            start_t,
            end_t,
        ));
        assert(chunk_stream(jump_state(g), (c - 1) as nat) == chunk_stream(g, c));
    }
}

/// Runs the thinning transform over `data[start..end]`, drawing from `g`.
/// Returns the output values and the failure flag; `g` is left in the
/// state after the run. The flag is tested before each element's draw, so
/// after a failure the rest of the segment takes the fallback fast path.
pub fn run_chunk(data: &Vec<i32>, start: usize, end: usize, g: &mut Xoshiro256pp) -> (r: (
    Vec<i32>,
    Option<i32>,
))
    requires
        start <= end <= data@.len(),
    ensures
        r.0@ == run_elems(data@.subrange(start as int, end as int), *old(g), None).out,
        r.1 == run_elems(data@.subrange(start as int, end as int), *old(g), None).flag,
        *final (g) == run_elems(data@.subrange(start as int, end as int), *old(g), None).g,
{
    let ghost seg = data@.subrange(start as int, end as int);
    let ghost g0 = *g;
    let mut out: Vec<i32> = Vec::with_capacity(end - start);
    let mut flag: Option<i32> = None;
    let mut i: usize = start;
    while i < end
        invariant
            start <= i <= end <= data@.len(),
            seg == data@.subrange(start as int, end as int),
            out@.len() == i - start,
            run_elems(seg, g0, None).out == out@ + run_elems(
                data@.subrange(i as int, end as int),
                *g,
                flag,
            ).out,
            run_elems(seg, g0, None).g == run_elems(
                data@.subrange(i as int, end as int),
                *g,
                flag,
            ).g,
            run_elems(seg, g0, None).flag == run_elems(
                data@.subrange(i as int, end as int),
                *g,
                flag,
            ).flag,
        decreases end - i,
    {
        let ghost before = data@.subrange(i as int, end as int);
        let ghost after = data@.subrange(i as int + 1, end as int);
        proof {
            assert(before.len() == end - i);
            assert(before[0] == data@[i as int]);
            assert(before.skip(1) =~= after);
        }
        let n = data[i];
        if flag.is_some() {
            out.push(0);
            proof {
                let rest = run_elems(after, *g, flag);
                assert(run_elems(before, *g, flag).out == seq![0i32] + rest.out);
                assert((out@ + rest.out) =~= (out@.drop_last() + (seq![0i32] + rest.out)));
            }
        } else if n < 0 {
            let ghost gpre = *g;
            flag = Some(n);
            out.push(0);
            proof {
                let rest = run_elems(after, *g, flag);
                assert(run_elems(before, gpre, None).out == seq![0i32] + rest.out);
                assert((out@ + rest.out) =~= (out@.drop_last() + (seq![0i32] + rest.out)));
            }
        } else {
            let ghost gpre = *g;
            let d = binom_draw(g, n as u32);
            out.push(d as i32);
            proof {
                let rest = run_elems(after, *g, flag);
                assert(run_elems(before, gpre, None).out == seq![(binom_out(gpre, n as nat)
                    as i32)] + rest.out);
                assert((out@ + rest.out) =~= (out@.drop_last() + (seq![(binom_out(gpre, n as nat)
                    as i32)] + rest.out)));
            }
        }
        i = i + 1;
    }
    proof {
        assert(data@.subrange(i as int, end as int).len() == 0);
        assert(run_elems(data@.subrange(i as int, end as int), *g, flag) == ElemRun {
            out: Seq::<i32>::empty(),
            g: *g,
            flag,
        });
        assert(out@ + Seq::<i32>::empty() =~= out@);
    }
    (out, flag)
}

/// Applies the thinning transform to all of `data`: chunk `c` covers
/// elements `[c*ce, (c+1)*ce)` and draws from the root stream jumped `c`
/// times, so the result is a function of the data, the chunk size and the
/// root state alone.
pub fn transform_chunked(data: &Vec<i32>, ce: usize, root: Xoshiro256pp) -> (r: (
    Vec<i32>,
    Option<i32>,
))
    requires
        1 <= ce,
    ensures
        r.0@ == run_chunks(data@, ce as nat, root).out,
        r.1 == run_chunks(data@, ce as nat, root).flag,
{
    let mut out: Vec<i32> = Vec::with_capacity(data.len());
    let mut flag: Option<i32> = None;
    let mut base = root;
    let mut pos: usize = 0;
    proof {
        assert(data@.skip(0) =~= data@);
        assert(Seq::<i32>::empty() + run_chunks(data@, ce as nat, root).out =~= run_chunks(
            data@,
            ce as nat,
            root,
        ).out);
    }
    while pos < data.len()
        invariant
            1 <= ce,
            pos <= data@.len(),
            out@.len() == pos,
            run_chunks(data@, ce as nat, root).out == out@ + run_chunks(
                data@.skip(pos as int),
                ce as nat,
                base,
            ).out,
            run_chunks(data@, ce as nat, root).flag == (if flag is Some {
                flag
            } else {
                run_chunks(data@.skip(pos as int), ce as nat, base).flag
            }),
        decreases data@.len() - pos,
    {
        let remaining = data.len() - pos;
        let take = if ce < remaining {
            ce
        } else {
            remaining
        };
        let ghost rem_seq = data@.skip(pos as int);
        proof {
            assert(rem_seq.len() == remaining);
            assert(rem_seq.take(take as int) =~= data@.subrange(
                pos as int,
                (pos + take) as int,
            ));
            assert(rem_seq.skip(take as int) =~= data@.skip((pos + take) as int));
        }
        let mut s = base;
        let (mut vals, cflag) = run_chunk(data, pos, pos + take, &mut s);
        proof {
            let head = run_elems(rem_seq.take(take as int), base, None::<i32>);
            let rest = run_chunks(rem_seq.skip(take as int), ce as nat, jump_state(base));
            assert(run_chunks(rem_seq, ce as nat, base).out == head.out + rest.out);
            assert((out@ + (head.out + rest.out)) =~= ((out@ + head.out) + rest.out));
            lemma_run_elems_len(rem_seq.take(take as int), base, None);
        }
        out.append(&mut vals);
        if flag.is_none() {
            flag = cflag;
        }
        base.jump();
        pos = pos + take;
    }
    proof {
        assert(data@.skip(pos as int).len() == 0);
        assert(run_chunks(data@.skip(pos as int), ce as nat, base) == ChunkRun {
            out: Seq::<i32>::empty(),
            flag: None::<i32>,
        });
        assert(out@ + Seq::<i32>::empty() =~= out@);
    }
    (out, flag)
}

} // verus!
