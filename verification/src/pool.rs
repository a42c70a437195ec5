//! The pool builder, the worker's two work steps, and a sequential driver.
//!
//! A pool is wired by a [`PoolBuilder`]: one bounded compressor queue shared
//! by every pooled writer, and per sink one bounded ordered queue of reply
//! receivers.  A worker alternates two steps, each here as a verified
//! function: [`compress_message`] compresses one block and signals the
//! sink's index on the write-ready queue, and [`write_step`] honours one
//! such signal by dequeueing the sink's next reply receiver and appending
//! the received compressed block to the sink.  A worker stops only when
//! [`should_stop`] says so: shutdown signalled and every queue empty, so a
//! normal shutdown drains everything.
//!
//! Threads, real sinks and the polling sleep live with the caller; the
//! sequential driver [`run_pool`] runs the same two steps on the calling
//! thread until the stop rule holds, draining a pool into in-memory sinks.

use vstd::prelude::*;

use crate::channel::{
    channel_bounded, channel_is_empty, channel_recv, channel_send, channel_try_recv,
    channel_unbounded, clone_sender,
};
use crate::writer::{CompressorMessage, PooledWriter, WriterMessage};
use crate::Compressor;
use crate::PoolError;

verus! {

/// Whether a pool may be built over these parameters: at least one worker
/// thread, and a compressor queue deeper than the worker count.
pub open spec fn spec_params_valid(queue_size: usize, threads: usize) -> bool {
    threads >= 1 && queue_size > threads
}

/// The builder's constructor demands valid parameters; callers that take
/// them from outside test them here first.
pub fn params_valid(queue_size: usize, threads: usize) -> (r: bool)
    ensures
        r == spec_params_valid(queue_size, threads),
{
    threads >= 1 && queue_size > threads
}

/// Builds up a pool: holds the configuration and both ends of every queue,
/// and exchanges sinks for [`PooledWriter`]s, assigning sink indices dense
/// from 0 in exchange order.
pub struct PoolBuilder<C: Compressor> {
    /// The index the next exchanged writer will get.
    writer_index: usize,
    /// The level every worker's codec instance is built from.
    compression_level: C::CompressionLevel,
    /// The depth of the compressor queue and of each sink's ordered queue.
    queue_size: usize,
    /// How many workers the pool will run.
    threads: usize,
    /// The send end of the compressor queue; every writer gets a clone.
    compressor_tx: flume::Sender<CompressorMessage>,
    /// The receive end of the compressor queue, shared by the workers.
    compressor_rx: flume::Receiver<CompressorMessage>,
    /// The send end of each sink's ordered queue, in sink order.
    writer_txs: Vec<flume::Sender<flume::Receiver<WriterMessage>>>,
    /// The receive end of each sink's ordered queue, in sink order.
    writer_rxs: Vec<flume::Receiver<flume::Receiver<WriterMessage>>>,
}

/// What the pool's run loop takes over from a finished builder.  The
/// builder's own send ends are dropped in the taking, so once every pooled
/// writer is closed the queues can drain to empty.
pub struct PoolParts<C: Compressor> {
    /// The level every worker's codec instance is built from.
    pub compression_level: C::CompressionLevel,
    /// How many workers the pool should run.
    pub threads: usize,
    /// The receive end of the compressor queue.
    pub compressor_rx: flume::Receiver<CompressorMessage>,
    /// The receive end of each sink's ordered queue, in sink order.
    pub writer_rxs: Vec<flume::Receiver<flume::Receiver<WriterMessage>>>,
    /// The send end of the write-ready queue, for the compression step.
    pub write_ready_tx: flume::Sender<usize>,
    /// The receive end of the write-ready queue, for the write step.
    pub write_ready_rx: flume::Receiver<usize>,
}

impl<C: Compressor> PoolBuilder<C> {
    /// How many sinks have been exchanged for pooled writers.
    pub closed spec fn sink_count(&self) -> nat {
        self.writer_index as nat
    }

    /// The configured queue depth.
    pub closed spec fn spec_queue_size(&self) -> nat {
        self.queue_size as nat
    }

    /// The configured worker count.
    pub closed spec fn spec_threads(&self) -> nat {
        self.threads as nat
    }

    /// The compression level the pool will hand each worker.
    pub closed spec fn spec_level(&self) -> C::CompressionLevel {
        self.compression_level
    }

    /// Well-formed: valid parameters, and one queue end pair per exchanged
    /// sink.
    pub closed spec fn wf(&self) -> bool {
        &&& spec_params_valid(self.queue_size, self.threads)
        &&& self.writer_txs@.len() == self.sink_count()
        &&& self.writer_rxs@.len() == self.sink_count()
    }

    /// A builder over a compressor queue of depth `queue_size`, for a pool
    /// of `threads` workers at the codec's default level.  The parameters
    /// must be valid — test them with [`params_valid`] when they come from
    /// outside.
    pub fn new(queue_size: usize, threads: usize) -> (b: PoolBuilder<C>)
        requires
            spec_params_valid(queue_size, threads),
        ensures
            b.wf(),
            b.spec_queue_size() == queue_size,
            b.spec_threads() == threads,
            b.sink_count() == 0,
            b.spec_level() == C::spec_default_level(),
    {
        let (compressor_tx, compressor_rx) = channel_bounded::<CompressorMessage>(queue_size);
        PoolBuilder {
            writer_index: 0,
            compression_level: C::default_compression_level(),
            queue_size,
            threads,
            compressor_tx,
            compressor_rx,
            writer_txs: Vec::new(),
            writer_rxs: Vec::new(),
        }
    }

    /// Sets the compression level the pool will use: the level is accepted
    /// exactly when the codec accepts it, and rejected with the codec's
    /// reason as a `CompressionError`.
    pub fn compression_level(self, level: u8) -> (r: Result<PoolBuilder<C>, PoolError>)
        requires
            self.wf(),
        ensures
            r is Ok <==> C::spec_level_valid(level),
            r matches Ok(b) ==> {
                &&& b.wf()
                &&& b.spec_queue_size() == self.spec_queue_size()
                &&& b.spec_threads() == self.spec_threads()
                &&& b.sink_count() == self.sink_count()
                &&& b.spec_level() == C::spec_validated_level(level)
            },
            r matches Err(e) ==> e is CompressionError,
    {
        match C::new_compression_level(level) {
            Ok(l) => {
                let mut b = self;
                b.compression_level = l;
                Ok(b)
            },
            Err(e) => Err(PoolError::CompressionError(C::describe_error(e))),
        }
    }

    /// Exchanges the next sink for a pooled writer.  The writer chunks at
    /// the codec's block size, starts empty, and carries the next dense
    /// sink index; its sink's ordered queue is created here, as deep as
    /// the compressor queue.
    pub fn exchange(&mut self) -> (w: PooledWriter)
        requires
            old(self).wf(),
            old(self).sink_count() < usize::MAX,
        ensures
            final(self).wf(),
            final(self).sink_count() == old(self).sink_count() + 1,
            final(self).spec_queue_size() == old(self).spec_queue_size(),
            final(self).spec_threads() == old(self).spec_threads(),
            final(self).spec_level() == old(self).spec_level(),
            w.wf(),
            w.sink_index() == old(self).sink_count(),
            w.block_size() == C::spec_block_size(),
            w.dispatched() == Seq::<(Seq<u8>, bool)>::empty(),
            w.buffered() == Seq::<u8>::empty(),
    {
        let (tx, rx) = channel_bounded::<flume::Receiver<WriterMessage>>(self.queue_size);
        let w = PooledWriter::new::<C>(
            self.writer_index,
            clone_sender(&self.compressor_tx),
            clone_sender(&tx),
        );
        self.writer_index = self.writer_index + 1;
        self.writer_txs.push(tx);
        self.writer_rxs.push(rx);
        w
    }

    /// Finishes building: hands out what the run loop needs and drops the
    /// builder's send ends, so that the queues empty out once every pooled
    /// writer is closed.
    pub fn into_parts(self) -> (r: PoolParts<C>)
        requires
            self.wf(),
        ensures
            r.threads >= 1,
            r.threads == self.spec_threads(),
            r.writer_rxs@.len() == self.sink_count(),
            r.compression_level == self.spec_level(),
    {
        let (write_ready_tx, write_ready_rx) = channel_unbounded::<usize>();
        PoolParts {
            compression_level: self.compression_level,
            threads: self.threads,
            compressor_rx: self.compressor_rx,
            writer_rxs: self.writer_rxs,
            write_ready_tx,
            write_ready_rx,
        }
    }
}

/// The worker termination rule: a worker that found no work stops exactly
/// when shutdown has been signalled and it can see no work left anywhere —
/// the compressor queue, the write-ready queue and every sink's ordered
/// queue are all empty.  A normal shutdown therefore strands no block.
pub fn should_stop(
    shutdown_signalled: bool,
    compressor_queue_empty: bool,
    write_ready_empty: bool,
    sink_queues_empty: bool,
) -> (r: bool)
    ensures
        r == (shutdown_signalled && compressor_queue_empty && write_ready_empty
            && sink_queues_empty),
{
    shutdown_signalled && compressor_queue_empty && write_ready_empty && sink_queues_empty
}

/// Whether every sink's ordered queue was seen empty.
pub fn all_queues_empty(
    writer_rxs: &Vec<flume::Receiver<flume::Receiver<WriterMessage>>>,
) -> bool {
    let mut i: usize = 0;
    let mut all_empty = true;
    while i < writer_rxs.len()
        invariant
            i <= writer_rxs@.len(),
        decreases writer_rxs@.len() - i,
    {
        if !channel_is_empty(&writer_rxs[i]) {
            all_empty = false;
        }
        i = i + 1;
    }
    all_empty
}

/// One block, compressed: it succeeds exactly when the codec accepts the
/// input, and the bytes returned are then exactly what the codec says
/// this input compresses to — `is_last` appends the codec's stream
/// terminator.  A codec failure is surfaced as `CompressionError`
/// carrying its reason.
pub fn compress_block<C: Compressor>(compressor: &mut C, input: &[u8], is_last: bool) -> (r:
    Result<Vec<u8>, PoolError>)
    ensures
        r is Ok <==> old(compressor).spec_compress_ok(input@, is_last),
        r matches Ok(v) ==> v@ == old(compressor).spec_compress(input@, is_last),
        final(compressor).spec_level() == old(compressor).spec_level(),
        forall|inp: Seq<u8>, il: bool|
            #[trigger] final(compressor).spec_compress(inp, il) == old(compressor).spec_compress(
                inp,
                il,
            ),
        forall|inp: Seq<u8>, il: bool|
            #[trigger] final(compressor).spec_compress_ok(inp, il) == old(
                compressor,
            ).spec_compress_ok(inp, il),
        r matches Err(e) ==> e is CompressionError,
{
    let mut compressed: Vec<u8> = Vec::new();
    match compressor.compress(input, &mut compressed, is_last) {
        Ok(()) => {
            proof {
                assert(compressed@ =~= old(compressor).spec_compress(input@, is_last));
            }
            Ok(compressed)
        },
        Err(e) => Err(PoolError::CompressionError(C::describe_error(e))),
    }
}

/// A worker's compression step, given one job: the block is compressed by
/// [`compress_block`], the compressed bytes are sent over the job's reply
/// channel, and the job's sink index is signalled on the write-ready
/// queue, in that order.  The reply is sent before the signal, so whoever
/// sees the signal finds the reply present.  A codec failure is surfaced
/// as `CompressionError`, a failed send as `ChannelSend`; neither is
/// swallowed.
pub fn compress_message<C: Compressor>(
    compressor: &mut C,
    msg: CompressorMessage,
    write_ready_tx: &flume::Sender<usize>,
) -> (r: Result<(), PoolError>)
    ensures
        forall|inp: Seq<u8>, il: bool|
            #[trigger] final(compressor).spec_compress(inp, il) == old(compressor).spec_compress(
                inp,
                il,
            ),
        r matches Err(e) ==> (e is CompressionError || e is ChannelSend),
{
    let compressed = match compress_block(compressor, msg.buffer.as_slice(), msg.is_last) {
        Ok(v) => v,
        Err(e) => {
            return Err(e);
        },
    };
    match channel_send(&msg.oneshot, WriterMessage { buffer: compressed }) {
        Ok(()) => {},
        Err(e) => {
            return Err(e);
        },
    }
    channel_send(write_ready_tx, msg.writer_index)
}

/// A worker's write step for sink `idx`, taken after a write-ready signal
/// for that sink: the sink's oldest reply receiver is dequeued, the
/// block's compressed bytes are received over it, and appended to the
/// sink.  Dequeueing from the ordered queue is what delivers a sink's
/// blocks in dispatch order.  Only sink `idx` changes, and only by
/// growing at its end.
pub fn write_step(
    writer_rx: &flume::Receiver<flume::Receiver<WriterMessage>>,
    sinks: &mut Vec<Vec<u8>>,
    idx: usize,
) -> (r: Result<(), PoolError>)
    requires
        idx < old(sinks)@.len(),
    ensures
        final(sinks)@.len() == old(sinks)@.len(),
        forall|j: int|
            0 <= j < old(sinks)@.len() && j != idx ==> final(sinks)@[j] == old(sinks)@[j],
        old(sinks)@[idx as int]@.is_prefix_of(final(sinks)@[idx as int]@),
        r matches Err(e) ==> e is ChannelReceive,
{
    let reply_rx = match channel_recv(writer_rx) {
        Ok(rx) => rx,
        Err(e) => {
            return Err(e);
        },
    };
    let mut wm = match channel_recv(&reply_rx) {
        Ok(m) => m,
        Err(e) => {
            return Err(e);
        },
    };
    let ghost block = wm.buffer@;
    let sink = &mut sinks[idx];
    sink.append(&mut wm.buffer);
    proof {
        assert(old(sinks)@[idx as int]@.is_prefix_of(old(sinks)@[idx as int]@ + block));
    }
    Ok(())
}

/// Drives a built pool on the calling thread until the stop rule holds:
/// one worker's loop, without the polling sleep that a parallel pool needs.
/// Each round processes at most one compression job and honours at most
/// one write-ready signal, exactly as a pooled worker does; with no work
/// found and every queue empty the drain stops and returns `Ok(true)`.
/// `max_rounds` bounds the rounds spent, so the drain provably returns; a
/// drain of a pool whose writers are all closed takes a few rounds per
/// dispatched block, and `Ok(false)` says the budget ran out first.  Sink
/// `i` receives the blocks dispatched by the writer exchanged as index
/// `i`, in dispatch order; sinks only grow, and none is touched out of
/// turn.  The first worker error stops the drain and is returned.
pub fn run_pool<C: Compressor>(
    compressor: &mut C,
    parts: &PoolParts<C>,
    sinks: &mut Vec<Vec<u8>>,
    max_rounds: u64,
) -> (r: Result<bool, PoolError>)
    requires
        old(sinks)@.len() == parts.writer_rxs@.len(),
    ensures
        final(sinks)@.len() == old(sinks)@.len(),
        forall|i: int|
            0 <= i < old(sinks)@.len() ==> (#[trigger] old(sinks)@[i]@).is_prefix_of(
                final(sinks)@[i]@,
            ),
{
    let mut rounds: u64 = 0;
    let mut stopped = false;
    while rounds < max_rounds && !stopped
        invariant
            sinks@.len() == old(sinks)@.len(),
            parts.writer_rxs@.len() == old(sinks)@.len(),
            forall|i: int|
                0 <= i < old(sinks)@.len() ==> (#[trigger] old(sinks)@[i]@).is_prefix_of(
                    sinks@[i]@,
                ),
        decreases max_rounds - rounds,
    {
        rounds = rounds + 1;
        let mut did_something = false;
        match channel_try_recv(&parts.compressor_rx) {
            Some(msg) => {
                match compress_message(compressor, msg, &parts.write_ready_tx) {
                    Ok(()) => {},
                    Err(e) => {
                        return Err(e);
                    },
                }
                did_something = true;
            },
            None => {},
        }
        match channel_try_recv(&parts.write_ready_rx) {
            Some(idx) => {
                if idx >= sinks.len() {
                    // a signal for a sink the pool does not have: the
                    // queues are corrupt, as when a receive fails
                    return Err(PoolError::ChannelReceive);
                }
                let ghost pre = sinks@;
                match write_step(&parts.writer_rxs[idx], sinks, idx) {
                    Ok(()) => {},
                    Err(e) => {
                        return Err(e);
                    },
                }
                proof {
                    assert forall|i: int| 0 <= i < old(sinks)@.len() implies (
                    #[trigger] old(sinks)@[i]@).is_prefix_of(sinks@[i]@) by {
                        if i != idx {
                            assert(sinks@[i] == pre[i]);
                        }
                    }
                }
                did_something = true;
            },
            None => {},
        }
        if !did_something {
            let compressor_empty = channel_is_empty(&parts.compressor_rx);
            let ready_empty = channel_is_empty(&parts.write_ready_rx);
            let queues_empty = all_queues_empty(&parts.writer_rxs);
            // a sequential drain is its own shutdown signal
            if should_stop(true, compressor_empty, ready_empty, queues_empty) {
                stopped = true;
            }
        }
    }
    Ok(stopped)
}

} // verus!
