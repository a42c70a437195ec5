//! The producer-facing pooled writer and the messages it dispatches.
//!
//! A [`PooledWriter`] gathers bytes into a block-sized buffer.  Whenever the
//! buffer fills, and on `flush` and `close`, it dispatches one block: it
//! enqueues the receive end of a fresh single-use reply channel on its
//! sink's ordered queue, and then hands the block to the shared compressor
//! queue.  Enqueueing the placeholder first is what keeps a sink's blocks
//! in order however the compressor pool finishes them.
//!
//! A ghost log records every dispatched block.  The writer's contracts pin
//! the log exactly: the blocks are the full chunks of the accepted bytes in
//! order, none is larger than the block size, and none is terminal while
//! the writer lives — only `close` dispatches a terminal block, and it
//! consumes the writer.

use vstd::prelude::*;

use crate::channel::{channel_send, channel_unbounded};
use crate::chunks::{
    as_plain_blocks, chunk_rest, concat_payloads, full_chunks, lemma_chunks_append_fill,
    lemma_chunks_append_partial, lemma_chunks_concat, lemma_concat_payloads_add,
    lemma_concat_payloads_push,
};
use crate::Compressor;
use crate::PoolError;

verus! {

/// The compressed bytes of one block, flowing back over the block's reply
/// channel.
pub struct WriterMessage {
    /// One compressed block, ready to be written to the sink.
    pub buffer: Vec<u8>,
}

/// One block on its way from a pooled writer to the compressor pool.
pub struct CompressorMessage {
    /// The index of the destination sink.
    pub writer_index: usize,
    /// The uncompressed bytes of the block.
    pub buffer: Vec<u8>,
    /// The send end of the block's single-use reply channel.
    pub oneshot: flume::Sender<WriterMessage>,
    /// Whether this is the dispatching writer's terminal block.
    pub is_last: bool,
}

impl CompressorMessage {
    /// A non-terminal message around `buffer`, paired with the receive end
    /// of the block's reply channel.
    fn new_parts(writer_index: usize, buffer: Vec<u8>) -> (r: (
        CompressorMessage,
        flume::Receiver<WriterMessage>,
    ))
        ensures
            r.0.writer_index == writer_index,
            r.0.buffer@ == buffer@,
            r.0.is_last == false,
    {
        let (tx, rx) = channel_unbounded::<WriterMessage>();
        (CompressorMessage { writer_index, buffer, oneshot: tx, is_last: false }, rx)
    }
}

/// A producer handle, exchanged for a raw sink through the pool builder.
///
/// A writer dropped without [`PooledWriter::close`] dispatches nothing
/// from here: destructors cannot be verified, so an embedding that wants
/// drop to behave as `close` wraps the handle and closes it in the
/// wrapper's destructor.
pub struct PooledWriter {
    /// The index of this writer's sink, dense from 0 in exchange order.
    writer_index: usize,
    /// The shared send end of the pool's compressor queue.
    compressor_tx: flume::Sender<CompressorMessage>,
    /// The send end of this sink's ordered queue of reply receivers.
    writer_tx: flume::Sender<flume::Receiver<WriterMessage>>,
    /// Bytes accepted but not yet dispatched; always shorter than a block.
    buffer: Vec<u8>,
    /// The codec's block size: the most bytes one block may carry.
    buffer_size: usize,
    /// Every block taken from the buffer for dispatch, in dispatch order.
    log: Ghost<Seq<(Seq<u8>, bool)>>,
}

impl PooledWriter {
    /// The blocks this writer has dispatched, in order: each a payload and
    /// its terminal flag.  When an operation reports `ChannelSend`, its
    /// final entry was lost in transit to the shut-down pool.
    pub closed spec fn dispatched(&self) -> Seq<(Seq<u8>, bool)> {
        self.log@
    }

    /// The bytes accepted but not yet dispatched.
    pub closed spec fn buffered(&self) -> Seq<u8> {
        self.buffer@
    }

    /// The index of this writer's sink.
    pub closed spec fn sink_index(&self) -> nat {
        self.writer_index as nat
    }

    /// The block size this writer chunks at.
    pub closed spec fn block_size(&self) -> nat {
        self.buffer_size as nat
    }

    /// Every byte this writer has accepted, in order: the dispatched
    /// payloads followed by the buffered rest.
    pub open spec fn written(&self) -> Seq<u8> {
        concat_payloads(self.dispatched()) + self.buffered()
    }

    /// The dispatch log's own invariant: no block is larger than the block
    /// size, and none is terminal — the terminal block is dispatched by
    /// `close` alone, which consumes the writer.
    pub open spec fn dispatch_wf(&self) -> bool {
        &&& forall|i: int|
            0 <= i < self.dispatched().len() ==> (#[trigger] self.dispatched()[i]).0.len()
                <= self.block_size()
        &&& forall|i: int| 0 <= i < self.dispatched().len() ==> !(#[trigger] self.dispatched()[i]).1
    }

    /// Well-formed: a positive block size, a buffer strictly below it, and
    /// a well-formed dispatch log.  Every writer the builder hands out is
    /// well-formed and every operation keeps it so.
    pub open spec fn wf(&self) -> bool {
        &&& self.block_size() >= 1
        &&& self.buffered().len() < self.block_size()
        &&& self.dispatch_wf()
    }

    /// A fresh writer for sink `index`, chunking at `C`'s block size.
    pub(crate) fn new<C: Compressor>(
        index: usize,
        compressor_tx: flume::Sender<CompressorMessage>,
        writer_tx: flume::Sender<flume::Receiver<WriterMessage>>,
    ) -> (w: PooledWriter)
        ensures
            w.wf(),
            w.sink_index() == index,
            w.block_size() == C::spec_block_size(),
            w.dispatched() == Seq::<(Seq<u8>, bool)>::empty(),
            w.buffered() == Seq::<u8>::empty(),
    {
        let size = C::block_size();
        PooledWriter {
            writer_index: index,
            compressor_tx,
            writer_tx,
            buffer: Vec::with_capacity(size),
            buffer_size: size,
            log: Ghost(Seq::empty()),
        }
    }

    /// The index of this writer's sink.
    pub fn writer_index(&self) -> (r: usize)
        ensures
            r == self.sink_index(),
    {
        self.writer_index
    }

    /// Takes the buffer as one block and dispatches it: the reply
    /// placeholder onto the sink's ordered queue first, then the block
    /// onto the compressor queue.  The log records the block either way;
    /// on `ChannelSend` the pool never received it.
    fn send_block(&mut self, is_last: bool) -> (r: Result<(), PoolError>)
        ensures
            final(self).log@ == old(self).log@.push((old(self).buffer@, is_last)),
            final(self).buffer@ == Seq::<u8>::empty(),
            final(self).buffer_size == old(self).buffer_size,
            final(self).writer_index == old(self).writer_index,
            r matches Err(e) ==> e is ChannelSend,
    {
        let ghost payload = self.buffer@;
        let mut bytes: Vec<u8> = Vec::new();
        core::mem::swap(&mut bytes, &mut self.buffer);
        let (mut m, reply_rx) = CompressorMessage::new_parts(self.writer_index, bytes);
        m.is_last = is_last;
        proof {
            self.log@ = self.log@.push((payload, is_last));
        }
        match channel_send(&self.writer_tx, reply_rx) {
            Ok(()) => {},
            Err(e) => {
                return Err(e);
            },
        }
        channel_send(&self.compressor_tx, m)
    }

    /// Accepts all of `buf`: the bytes go into the buffer, and each time it
    /// fills, the full block is dispatched non-terminal.  On success the
    /// count returned is the whole of `buf`, the dispatched blocks are
    /// exactly the full chunks of the accepted bytes, and the rest stays
    /// buffered; nothing is lost or reordered.  A write that fills no
    /// block sends nothing and so cannot fail; one that fails mid-way
    /// keeps what it had accepted up to the lost block: the dispatched
    /// blocks stay dispatched, and the writer then holds exactly the old
    /// bytes plus a prefix of `buf`.
    pub fn write(&mut self, buf: &[u8]) -> (r: Result<usize, PoolError>)
        requires
            old(self).wf(),
        ensures
            final(self).wf(),
            final(self).sink_index() == old(self).sink_index(),
            final(self).block_size() == old(self).block_size(),
            r matches Ok(n) ==> n == buf@.len(),
            r is Ok ==> final(self).dispatched() == old(self).dispatched() + as_plain_blocks(
                full_chunks(old(self).buffered() + buf@, old(self).block_size()),
            ),
            r is Ok ==> final(self).buffered() == chunk_rest(
                old(self).buffered() + buf@,
                old(self).block_size(),
            ),
            r is Ok ==> final(self).written() == old(self).written() + buf@,
            old(self).buffered().len() + buf@.len() < old(self).block_size() ==> r is Ok,
            r matches Err(e) ==> e is ChannelSend,
            r is Err ==> old(self).dispatched().is_prefix_of(final(self).dispatched()),
            r is Err ==> exists|k: int|
                0 <= k <= buf@.len() && final(self).written() == old(self).written() + buf@.take(
                    k,
                ),
    {
        let ghost t0 = old(self).buffered();
        let ghost z = old(self).block_size();
        let buf_len: usize = buf.len();
        proof {
            assert(t0 + buf@.take(0) =~= t0);
            assert(full_chunks(t0, z) =~= Seq::<Seq<u8>>::empty());
            assert(as_plain_blocks(Seq::<Seq<u8>>::empty()) =~= Seq::<(Seq<u8>, bool)>::empty());
            assert(old(self).dispatched() + as_plain_blocks(full_chunks(t0, z)) =~= old(
                self,
            ).dispatched());
        }
        let mut bytes_added: usize = 0;
        while bytes_added < buf_len
            invariant
                old(self).wf(),
                self.wf(),
                buf_len == buf@.len(),
                bytes_added <= buf@.len(),
                z == self.block_size(),
                self.buffer_size == old(self).buffer_size,
                self.writer_index == old(self).writer_index,
                t0 == old(self).buffered(),
                self.dispatched() == old(self).dispatched() + as_plain_blocks(
                    full_chunks(t0 + buf@.take(bytes_added as int), z),
                ),
                self.buffer@ == chunk_rest(t0 + buf@.take(bytes_added as int), z),
            decreases buf@.len() - bytes_added,
        {
            let ghost t_i = t0 + buf@.take(bytes_added as int);
            let ghost pre_disp = self.dispatched();
            let remaining: usize = buf_len - bytes_added;
            let space: usize = self.buffer_size - self.buffer.len();
            let to_append: usize = if remaining < space {
                remaining
            } else {
                space
            };
            let ghost pre_buf = self.buffer@;
            let ghost pre_log = self.log@;
            let ghost a = buf@.subrange(
                bytes_added as int,
                bytes_added as int + to_append as int,
            );
            let mut j: usize = 0;
            while j < to_append
                invariant
                    j <= to_append,
                    buf_len == buf@.len(),
                    bytes_added + to_append <= buf@.len(),
                    self.buffer@ == pre_buf + buf@.subrange(
                        bytes_added as int,
                        bytes_added as int + j as int,
                    ),
                    self.buffer_size == old(self).buffer_size,
                    self.writer_index == old(self).writer_index,
                    buf@.len() <= usize::MAX,
                    self.log@ == pre_log,
                    self.dispatched() == pre_disp,
                decreases to_append - j,
            {
                let b: u8 = buf[bytes_added + j];
                self.buffer.push(b);
                j += 1;
                proof {
                    assert(pre_buf + buf@.subrange(
                        bytes_added as int,
                        bytes_added as int + j as int,
                    ) =~= (pre_buf + buf@.subrange(
                        bytes_added as int,
                        bytes_added as int + (j - 1) as int,
                    )).push(b));
                }
            }
            proof {
                assert(self.buffer@ == pre_buf + a);
                assert(buf@.take(bytes_added as int) + a =~= buf@.take(
                    bytes_added as int + to_append as int,
                ));
                assert(t_i + a =~= t0 + buf@.take(bytes_added as int + to_append as int));
            }
            if self.buffer.len() == self.buffer_size {
                proof {
                    lemma_chunks_append_fill(t_i, a, z);
                    assert(as_plain_blocks(full_chunks(t_i, z).push(pre_buf + a)) =~= as_plain_blocks(
                        full_chunks(t_i, z),
                    ).push(((pre_buf + a), false)));
                }
                match self.send_block(false) {
                    Ok(()) => {},
                    Err(e) => {
                        proof {
                            assert(self.dispatched().take(old(self).dispatched().len() as int)
                                =~= old(self).dispatched());
                            lemma_chunks_concat(t_i, z);
                            assert(concat_payloads(as_plain_blocks(full_chunks(t_i, z))).len()
                                + pre_buf.len() == t_i.len());
                            assert(t0.len() + buf@.len() >= z);
                            lemma_concat_payloads_push(pre_disp, ((pre_buf + a), false));
                            lemma_concat_payloads_add(
                                old(self).dispatched(),
                                as_plain_blocks(full_chunks(t_i, z)),
                            );
                            let kk: int = bytes_added + to_append;
                            assert(self.written() =~= concat_payloads(pre_disp) + (pre_buf + a));
                            assert(self.written() =~= concat_payloads(old(self).dispatched()) + (
                            concat_payloads(as_plain_blocks(full_chunks(t_i, z))) + pre_buf) + a);
                            assert(concat_payloads(as_plain_blocks(full_chunks(t_i, z))) + pre_buf
                                =~= t_i);
                            assert(self.written() =~= concat_payloads(old(self).dispatched()) + (
                            t_i + a));
                            assert(t_i + a =~= t0 + buf@.take(kk));
                            assert(self.written() =~= old(self).written() + buf@.take(kk));
                            assert(0 <= kk <= buf@.len());
                            assert(exists|k2: int|
                                0 <= k2 <= buf@.len() && self.written() == old(self).written()
                                    + buf@.take(k2));
                        }
                        return Err(e);
                    },
                }
                proof {
                    assert(self.dispatched() =~= old(self).dispatched() + as_plain_blocks(
                        full_chunks(t_i + a, z),
                    ));
                }
            } else {
                proof {
                    lemma_chunks_append_partial(t_i, a, z);
                }
            }
            bytes_added = bytes_added + to_append;
        }
        proof {
            assert(buf@.take(buf@.len() as int) =~= buf@);
            assert(t0 + buf@.take(buf@.len() as int) =~= t0 + buf@);
            lemma_chunks_concat(t0 + buf@, z);
            lemma_concat_payloads_add(
                old(self).dispatched(),
                as_plain_blocks(full_chunks(t0 + buf@, z)),
            );
            assert(concat_payloads(self.dispatched()) =~= concat_payloads(old(self).dispatched())
                + concat_payloads(as_plain_blocks(full_chunks(t0 + buf@, z))));
            assert(self.written() =~= concat_payloads(old(self).dispatched()) + (t0 + buf@));
            assert(old(self).written() + buf@ =~= concat_payloads(old(self).dispatched()) + (t0
                + buf@));
            assert(self.written() == old(self).written() + buf@);
        }
        Ok(buf_len)
    }

    /// Dispatches whatever is buffered, however little, as one non-terminal
    /// block.  Returning is dispatch, not persistence: the block has been
    /// handed to the pool, not yet compressed or written to the sink.
    pub fn flush(&mut self) -> (r: Result<(), PoolError>)
        requires
            old(self).wf(),
        ensures
            final(self).wf(),
            final(self).sink_index() == old(self).sink_index(),
            final(self).block_size() == old(self).block_size(),
            final(self).dispatched() == old(self).dispatched().push((old(self).buffered(), false)),
            final(self).buffered() == Seq::<u8>::empty(),
            final(self).written() == old(self).written(),
            r matches Err(e) ==> e is ChannelSend,
    {
        let ghost pre = *self;
        let r = self.send_block(false);
        proof {
            lemma_concat_payloads_push(pre.dispatched(), (pre.buffered(), false));
            assert(self.written() =~= pre.written());
        }
        r
    }

    /// Consumes the writer and dispatches its one terminal block, carrying
    /// the buffered rest — possibly no bytes at all.  The codec appends its
    /// stream terminator after this block.  No further block can follow:
    /// the writer is gone.
    pub fn close(self) -> (r: Result<(), PoolError>)
        requires
            self.wf(),
        ensures
            r matches Err(e) ==> e is ChannelSend,
    {
        let mut w = self;
        w.send_block(true)
    }
}

/// Law (block-size ceiling): a well-formed pooled writer has never
/// dispatched a block carrying more than its block size in bytes.
pub proof fn lemma_dispatched_blocks_bounded(w: &PooledWriter)
    requires
        w.wf(),
    ensures
        forall|i: int|
            0 <= i < w.dispatched().len() ==> (#[trigger] w.dispatched()[i]).0.len()
                <= w.block_size(),
{
}

/// Law (terminal uniqueness): a live pooled writer has dispatched no
/// terminal block.  The one terminal block is dispatched by `close`, which
/// consumes the writer, so it is the writer's final block.
pub proof fn lemma_live_writer_no_terminal(w: &PooledWriter)
    requires
        w.wf(),
    ensures
        forall|i: int| 0 <= i < w.dispatched().len() ==> !(#[trigger] w.dispatched()[i]).1,
{
}

/// Law (terminal uniqueness, whole stream): the block sequence a writer
/// leaves behind when it is closed — everything it dispatched, then the
/// one terminal block `close` dispatches with the buffered rest — carries
/// `true` on exactly one block, the last.
pub proof fn lemma_closed_stream_terminal_is_last(w: &PooledWriter)
    requires
        w.wf(),
    ensures
        ({
            let stream = w.dispatched().push((w.buffered(), true));
            forall|i: int| 0 <= i < stream.len() ==> ((#[trigger] stream[i]).1 <==> i == stream.len() - 1)
        }),
{
    let stream = w.dispatched().push((w.buffered(), true));
    assert forall|i: int| 0 <= i < stream.len() implies ((#[trigger] stream[i]).1 <==> i
        == stream.len() - 1) by {
        if i < stream.len() - 1 {
            assert(stream[i] == w.dispatched()[i]);
        }
    }
}

} // verus!
