//! Batch planning for the status queries.
//!
//! The auditor never queries landing status for all signatures at once: it
//! splits them into chunks of at most the configured size and issues one
//! bounded request per chunk.

use vstd::prelude::*;

verus! {

/// Split the signatures into consecutive chunks of at most `chunk_size`
/// entries each. Every chunk is nonempty, chunks cover the whole input in
/// order, and no chunk exceeds `chunk_size`.
pub fn chunk_signatures(sigs: &Vec<String>, chunk_size: usize) -> (r: Vec<Vec<String>>)
    requires
        chunk_size > 0,
    ensures
        forall|b: int| 0 <= b < r@.len() ==> (#[trigger] r@[b])@.len() <= chunk_size as int,
        forall|b: int| 0 <= b < r@.len() ==> (#[trigger] r@[b])@.len() > 0,
        forall|b: int|
            0 <= b < r@.len() ==> (#[trigger] r@[b])@ == sigs@.subrange(
                b * (chunk_size as int),
                vstd::math::min((b + 1) * (chunk_size as int), sigs@.len() as int),
            ),
        sigs@.len() == 0 ==> r@.len() == 0,
        sigs@.len() > 0 ==> ((r@.len() as int) - 1) * (chunk_size as int) < sigs@.len() <= r@.len() * (
        chunk_size as int),
{
    let n = sigs.len();
    let mut r: Vec<Vec<String>> = Vec::new();
    let mut start: usize = 0;
    proof {
        assert((0int) * (chunk_size as int) == 0) by (nonlinear_arith);
    }
    while start < n
        invariant
            chunk_size > 0,
            n == sigs@.len(),
            start <= n,
            start as int == vstd::math::min((r@.len() as int) * (chunk_size as int), n as int),
            r@.len() > 0 ==> ((r@.len() as int) - 1) * (chunk_size as int) < n as int,
            forall|b: int| 0 <= b < r@.len() ==> (#[trigger] r@[b])@.len() <= chunk_size as int,
            forall|b: int| 0 <= b < r@.len() ==> (#[trigger] r@[b])@.len() > 0,
            forall|b: int|
                0 <= b < r@.len() ==> (#[trigger] r@[b])@ == sigs@.subrange(
                    b * (chunk_size as int),
                    vstd::math::min((b + 1) * (chunk_size as int), n as int),
                ),
        decreases n - start,
    {
        let end = if n - start < chunk_size {
            n
        } else {
            start + chunk_size
        };
        let mut chunk: Vec<String> = Vec::new();
        let mut k: usize = start;
        while k < end
            invariant
                start <= k <= end <= n,
                n == sigs@.len(),
                chunk@ == sigs@.subrange(start as int, k as int),
            decreases end - k,
        {
            chunk.push(sigs[k].clone());
            proof {
                assert(sigs@.subrange(start as int, k as int + 1) =~= sigs@.subrange(
                    start as int,
                    k as int,
                ).push(sigs@[k as int]));
            }
            k = k + 1;
        }
        let ghost bcount = r@.len();
        r.push(chunk);
        proof {
            assert((bcount + 1) * (chunk_size as int) == bcount * (chunk_size as int) + (
            chunk_size as int)) by (nonlinear_arith);
            assert(start as int == bcount * (chunk_size as int));
            assert(end as int == vstd::math::min((bcount + 1) * (chunk_size as int), n as int));
        }
        start = end;
    }
    r
}

} // verus!
