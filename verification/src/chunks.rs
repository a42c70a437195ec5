//! The block chunker's mathematical model.
//!
//! A pooled writer carves the bytes it accepts into full blocks of the
//! codec's block size and keeps the remainder buffered.  The spec functions
//! here say which blocks are carved off a byte sequence and what remains;
//! the lemmas state the laws the pool rests on: carving loses and reorders
//! nothing, every carved block is exactly one block long, and the remainder
//! is always shorter than a block.

use vstd::prelude::*;

verus! {

/// The payloads of `blocks`, concatenated in dispatch order.  The `bool` of
/// an entry is its terminal flag and carries no bytes.
pub open spec fn concat_payloads(blocks: Seq<(Seq<u8>, bool)>) -> Seq<u8>
    decreases blocks.len(),
{
    if blocks.len() == 0 {
        Seq::empty()
    } else {
        concat_payloads(blocks.drop_last()) + blocks.last().0
    }
}

/// The full blocks of size `z`, in order, that the chunker carves off the
/// front of `t`.
pub open spec fn full_chunks(t: Seq<u8>, z: nat) -> Seq<Seq<u8>>
    decreases t.len(),
    when z > 0
{
    if t.len() < z {
        Seq::empty()
    } else {
        seq![t.take(z as int)] + full_chunks(t.skip(z as int), z)
    }
}

/// What remains of `t` after every full block of size `z` is carved off.
pub open spec fn chunk_rest(t: Seq<u8>, z: nat) -> Seq<u8>
    decreases t.len(),
    when z > 0
{
    if t.len() < z {
        t
    } else {
        chunk_rest(t.skip(z as int), z)
    }
}

/// Marks every block of `blocks` as non-terminal.
pub open spec fn as_plain_blocks(blocks: Seq<Seq<u8>>) -> Seq<(Seq<u8>, bool)> {
    blocks.map_values(|b: Seq<u8>| (b, false))
}

/// Concatenation distributes over appending one block.
pub proof fn lemma_concat_payloads_push(blocks: Seq<(Seq<u8>, bool)>, b: (Seq<u8>, bool))
    ensures
        concat_payloads(blocks.push(b)) == concat_payloads(blocks) + b.0,
{
    assert(blocks.push(b).drop_last() =~= blocks);
    assert(blocks.push(b).last() == b);
}

/// Concatenation distributes over concatenation of block sequences.
pub proof fn lemma_concat_payloads_add(a: Seq<(Seq<u8>, bool)>, b: Seq<(Seq<u8>, bool)>)
    ensures
        concat_payloads(a + b) == concat_payloads(a) + concat_payloads(b),
    decreases b.len(),
{
    if b.len() == 0 {
        assert(a + b =~= a);
        assert(concat_payloads(a) + concat_payloads(b) =~= concat_payloads(a));
    } else {
        lemma_concat_payloads_add(a, b.drop_last());
        assert((a + b).drop_last() =~= a + b.drop_last());
        assert((a + b).last() == b.last());
        assert(concat_payloads(a) + concat_payloads(b.drop_last()) + b.last().0 =~= concat_payloads(
            a,
        ) + (concat_payloads(b.drop_last()) + b.last().0));
    }
}

/// The chunker loses and reorders nothing: the carved blocks, concatenated,
/// followed by the remainder, give back the input bytes exactly.
pub proof fn lemma_chunks_concat(t: Seq<u8>, z: nat)
    requires
        z > 0,
    ensures
        concat_payloads(as_plain_blocks(full_chunks(t, z))) + chunk_rest(t, z) == t,
    decreases t.len(),
{
    if t.len() < z {
        assert(full_chunks(t, z) =~= Seq::<Seq<u8>>::empty());
        assert(as_plain_blocks(full_chunks(t, z)) =~= Seq::<(Seq<u8>, bool)>::empty());
        assert(concat_payloads(as_plain_blocks(full_chunks(t, z))) + chunk_rest(t, z) =~= t);
    } else {
        let rest = t.skip(z as int);
        lemma_chunks_concat(rest, z);
        let head: Seq<(Seq<u8>, bool)> = seq![(t.take(z as int), false)];
        assert(as_plain_blocks(full_chunks(t, z)) =~= head + as_plain_blocks(
            full_chunks(rest, z),
        ));
        lemma_concat_payloads_add(head, as_plain_blocks(full_chunks(rest, z)));
        assert(head.drop_last() =~= Seq::<(Seq<u8>, bool)>::empty());
        assert(concat_payloads(Seq::<(Seq<u8>, bool)>::empty()) == Seq::<u8>::empty());
        assert(concat_payloads(head) =~= t.take(z as int));
        assert(concat_payloads(as_plain_blocks(full_chunks(t, z))) + chunk_rest(t, z) =~= t.take(
            z as int,
        ) + (concat_payloads(as_plain_blocks(full_chunks(rest, z))) + chunk_rest(rest, z)));
        assert(t.take(z as int) + rest =~= t);
    }
}

/// Every carved block is exactly one block long, and the remainder is
/// strictly shorter than a block.
pub proof fn lemma_chunks_sizes(t: Seq<u8>, z: nat)
    requires
        z > 0,
    ensures
        forall|i: int|
            0 <= i < full_chunks(t, z).len() ==> (#[trigger] full_chunks(t, z)[i]).len() == z,
        chunk_rest(t, z).len() < z,
    decreases t.len(),
{
    if t.len() < z {
    } else {
        let rest = t.skip(z as int);
        lemma_chunks_sizes(rest, z);
        assert forall|i: int| 0 <= i < full_chunks(t, z).len() implies (#[trigger] full_chunks(
            t,
            z,
        )[i]).len() == z by {
            if i == 0 {
                assert(full_chunks(t, z)[0] == t.take(z as int));
            } else {
                assert(full_chunks(t, z)[i] == full_chunks(rest, z)[i - 1]);
            }
        }
    }
}

/// Law (write composition): accepting `t` and then `u` carves exactly the
/// blocks of `t + u`: first the blocks of `t`, then those of `t`'s
/// remainder followed by `u`.  So any succession of writes dispatches the
/// same blocks, in the same order, as one write of their concatenation —
/// a sink's stream depends only on what was written to it, in write order.
pub proof fn lemma_chunks_compose(t: Seq<u8>, u: Seq<u8>, z: nat)
    requires
        z > 0,
    ensures
        full_chunks(t + u, z) == full_chunks(t, z) + full_chunks(chunk_rest(t, z) + u, z),
        chunk_rest(t + u, z) == chunk_rest(chunk_rest(t, z) + u, z),
    decreases t.len(),
{
    if t.len() < z {
        assert(full_chunks(t, z) =~= Seq::<Seq<u8>>::empty());
        assert(chunk_rest(t, z) == t);
        assert(full_chunks(t + u, z) =~= full_chunks(t, z) + full_chunks(chunk_rest(t, z) + u, z));
    } else {
        let rest = t.skip(z as int);
        lemma_chunks_compose(rest, u, z);
        assert((t + u).len() >= z);
        assert((t + u).take(z as int) =~= t.take(z as int));
        assert((t + u).skip(z as int) =~= rest + u);
        assert(full_chunks(t + u, z) =~= seq![t.take(z as int)] + full_chunks(rest + u, z));
        assert(full_chunks(t + u, z) =~= (seq![t.take(z as int)] + full_chunks(rest, z))
            + full_chunks(chunk_rest(rest, z) + u, z));
        assert(full_chunks(t + u, z) =~= full_chunks(t, z) + full_chunks(chunk_rest(t, z) + u, z));
        assert(chunk_rest(t + u, z) == chunk_rest(rest + u, z));
    }
}

/// Appending bytes that do not fill a block carves nothing new: the blocks
/// stay, the remainder grows.
pub proof fn lemma_chunks_append_partial(t: Seq<u8>, a: Seq<u8>, z: nat)
    requires
        z > 0,
        chunk_rest(t, z).len() + a.len() < z,
    ensures
        full_chunks(t + a, z) == full_chunks(t, z),
        chunk_rest(t + a, z) == chunk_rest(t, z) + a,
    decreases t.len(),
{
    if t.len() < z {
        assert(chunk_rest(t, z) == t);
        assert((t + a).len() < z);
        assert(full_chunks(t + a, z) =~= full_chunks(t, z));
        assert(chunk_rest(t + a, z) =~= chunk_rest(t, z) + a);
    } else {
        let rest = t.skip(z as int);
        lemma_chunks_append_partial(rest, a, z);
        assert((t + a).len() >= z);
        assert((t + a).take(z as int) =~= t.take(z as int));
        assert((t + a).skip(z as int) =~= rest + a);
        assert(full_chunks(t + a, z) =~= seq![t.take(z as int)] + full_chunks(rest + a, z));
        assert(full_chunks(t + a, z) =~= full_chunks(t, z));
        assert(chunk_rest(t + a, z) == chunk_rest(rest + a, z));
    }
}

/// Appending exactly the bytes that fill the block carves one new block,
/// made of the old remainder and those bytes, and empties the remainder.
pub proof fn lemma_chunks_append_fill(t: Seq<u8>, a: Seq<u8>, z: nat)
    requires
        z > 0,
        chunk_rest(t, z).len() + a.len() == z,
    ensures
        full_chunks(t + a, z) == full_chunks(t, z).push(chunk_rest(t, z) + a),
        chunk_rest(t + a, z) == Seq::<u8>::empty(),
    decreases t.len(),
{
    if t.len() < z {
        assert(chunk_rest(t, z) == t);
        assert((t + a).len() == z);
        assert((t + a).take(z as int) =~= t + a);
        assert((t + a).skip(z as int) =~= Seq::<u8>::empty());
        assert(full_chunks(t + a, z) =~= seq![t + a] + full_chunks(Seq::<u8>::empty(), z));
        assert(full_chunks(Seq::<u8>::empty(), z) =~= Seq::<Seq<u8>>::empty());
        assert(full_chunks(t + a, z) =~= full_chunks(t, z).push(chunk_rest(t, z) + a));
        assert(chunk_rest(Seq::<u8>::empty(), z) == Seq::<u8>::empty());
        assert(chunk_rest(t + a, z) =~= Seq::<u8>::empty());
    } else {
        let rest = t.skip(z as int);
        lemma_chunks_append_fill(rest, a, z);
        assert((t + a).len() >= z);
        assert((t + a).take(z as int) =~= t.take(z as int));
        assert((t + a).skip(z as int) =~= rest + a);
        assert(full_chunks(t + a, z) =~= seq![t.take(z as int)] + full_chunks(rest + a, z));
        assert(full_chunks(t + a, z) =~= (seq![t.take(z as int)] + full_chunks(rest, z)).push(
            chunk_rest(rest, z) + a,
        ));
        assert(full_chunks(t + a, z) =~= full_chunks(t, z).push(chunk_rest(t, z) + a));
        assert(chunk_rest(t + a, z) == chunk_rest(rest + a, z));
    }
}

} // verus!
