//! Partitions an ordered sequence of records into fixed-size chunks, so each
//! storage transaction stays bounded. Order is preserved within and across
//! chunks, and no record is dropped or duplicated.

use vstd::prelude::*;
use vstd::seq_lib::lemma_flatten_concat;

verus! {

/// Number of records persisted per transaction.
pub const CHUNK_SIZE: usize = 50;

/// The chunks as a sequence of mathematical sequences.
pub open spec fn views_of_chunks<T>(chunks: Seq<Vec<T>>) -> Seq<Seq<T>> {
    chunks.map_values(|c: Vec<T>| c@)
}

/// Concatenating one more chunk onto a flattened prefix.
pub proof fn lemma_flatten_take_succ<A>(s: Seq<Seq<A>>, i: int)
    requires
        0 <= i < s.len(),
    ensures
        s.take(i + 1).flatten() == s.take(i).flatten() + s[i],
{
    assert(s.take(i + 1) =~= s.take(i).push(s[i]));
    s.take(i).lemma_flatten_push(s[i]);
}

/// A flattened prefix of the chunks is a prefix of the whole flattened
/// sequence.
pub proof fn lemma_flatten_take_prefix<A>(s: Seq<Seq<A>>, i: int)
    requires
        0 <= i <= s.len(),
    ensures
        s.take(i).flatten() == s.flatten().take(s.take(i).flatten().len() as int),
{
    assert(s =~= s.take(i) + s.skip(i));
    lemma_flatten_concat(s.take(i), s.skip(i));
    assert(s.take(i).flatten() =~= s.flatten().take(s.take(i).flatten().len() as int));
}

/// A flattened prefix is never longer than the whole flattened sequence.
pub proof fn lemma_flatten_take_len<A>(s: Seq<Seq<A>>, i: int)
    requires
        0 <= i <= s.len(),
    ensures
        s.take(i).flatten().len() <= s.flatten().len(),
{
    assert(s =~= s.take(i) + s.skip(i));
    lemma_flatten_concat(s.take(i), s.skip(i));
}

/// Flattening a prefix of uniformly full chunks yields a whole multiple of
/// the chunk size.
pub proof fn lemma_flatten_take_full_len<A>(s: Seq<Seq<A>>, i: int, size: int)
    requires
        0 <= i <= s.len(),
        forall|k: int| 0 <= k < i ==> #[trigger] s[k].len() == size,
    ensures
        s.take(i).flatten().len() == i * size,
    decreases i,
{
    if i == 0 {
        assert(s.take(0) =~= Seq::<Seq<A>>::empty());
    } else {
        lemma_flatten_take_full_len(s, i - 1, size);
        lemma_flatten_take_succ(s, i - 1);
        assert((i - 1) * size + size == i * size) by (nonlinear_arith);
    }
}

/// Splits `records` into chunks of at most `size` records each: order is
/// kept within and across chunks, nothing is dropped or duplicated, every
/// chunk but the last is exactly `size` long, and no chunk is empty.
pub fn chunk_records<T>(records: Vec<T>, size: usize) -> (chunks: Vec<Vec<T>>)
    requires
        size > 0,
    ensures
        views_of_chunks(chunks@).flatten() == records@,
        forall|i: int| 0 <= i < chunks@.len() ==> 0 < #[trigger] chunks@[i]@.len() <= size,
        forall|i: int| 0 <= i < chunks@.len() - 1 ==> #[trigger] chunks@[i]@.len() == size,
{
    let ghost all: Seq<T> = records@;
    let mut rest = records;
    let mut chunks: Vec<Vec<T>> = Vec::new();
    proof {
        assert(views_of_chunks(chunks@) =~= Seq::<Seq<T>>::empty());
        assert(views_of_chunks(chunks@).flatten() + rest@ =~= all);
    }
    while rest.len() > 0
        invariant
            size > 0,
            views_of_chunks(chunks@).flatten() + rest@ == all,
            forall|i: int|
                0 <= i < chunks@.len() ==> (#[trigger] chunks@[i]@.len() == size || (i == chunks@.len()
                    - 1 && rest@.len() == 0)),
            forall|i: int| 0 <= i < chunks@.len() ==> 0 < #[trigger] chunks@[i]@.len() <= size,
        decreases rest@.len(),
    {
        let ghost flat_before: Seq<T> = views_of_chunks(chunks@).flatten();
        let mut chunk: Vec<T> = Vec::new();
        while chunk.len() < size && rest.len() > 0
            invariant
                size > 0,
                chunk@.len() <= size,
                chunk@.len() == 0 ==> rest@.len() > 0,
                flat_before == views_of_chunks(chunks@).flatten(),
                flat_before + chunk@ + rest@ == all,
            decreases rest@.len(),
        {
            let ghost rest_before: Seq<T> = rest@;
            let x = rest.remove(0);
            chunk.push(x);
            proof {
                assert(rest@ =~= rest_before.skip(1));
                assert(flat_before + chunk@ + rest@ =~= all);
            }
        }
        proof {
            assert(views_of_chunks(chunks@.push(chunk)) =~= views_of_chunks(chunks@).push(chunk@));
            views_of_chunks(chunks@).lemma_flatten_push(chunk@);
            assert(views_of_chunks(chunks@.push(chunk)).flatten() + rest@ =~= all);
        }
        chunks.push(chunk);
    }
    proof {
        assert(views_of_chunks(chunks@).flatten() =~= all);
    }
    chunks
}

} // verus!
