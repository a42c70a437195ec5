//! A pooled writer and compressor.
//!
//! The crate solves the problem of compressing and writing data to a set of
//! byte sinks using a shared pool of workers, where the number of sinks and
//! the number of workers need not be equal.  Raw sinks are exchanged for
//! [`PooledWriter`]s through a [`PoolBuilder`]; each pooled writer gathers
//! bytes into a block-sized buffer and hands full blocks to the pool.
//!
//! Per-sink output order is kept by a placeholder scheme: before a block is
//! handed to the compressors, the receive end of its single-use reply channel
//! is enqueued on that sink's own ordered queue.  Workers compress blocks in
//! any order, but a sink's blocks are written in the order their reply
//! channels were enqueued, which is the order the blocks were dispatched.
//!
//! The concurrency itself (native threads, per-sink locks, the polling loop)
//! lives outside this crate; here stand the pieces those loops are built
//! from: the block chunker behind [`PooledWriter`], the codec behind
//! [`Compressor`] and [`bgzf::BgzfCompressor`], the per-worker compression
//! step, and a sequential driver that drains a pool's queues into in-memory
//! sinks.
//!
//! The laws the pool rests on are stated and proved where their subjects
//! live: the chunker loses, reorders and invents nothing
//! ([`chunks::lemma_chunks_concat`], [`chunks::lemma_chunks_compose`]), no
//! dispatched block exceeds the block size
//! ([`writer::lemma_dispatched_blocks_bounded`]), exactly one block per
//! writer is terminal and it is the last
//! ([`writer::lemma_closed_stream_terminal_is_last`]), and a worker stops
//! only with every queue drained ([`pool::should_stop`]).

use vstd::prelude::*;

pub mod bgzf;
pub mod channel;
pub mod chunks;
pub mod pool;
pub mod writer;

pub use crate::pool::PoolBuilder;
pub use crate::writer::PooledWriter;

verus! {

/// Errors surfaced by pool operations.
///
/// `ChannelSend` and `ChannelReceive` mean a logically live channel end went
/// away: the pool is shutting down or has crashed.  `CompressionError`
/// carries the codec's textual reason.  `Io` stands for a sink write or
/// flush failure; sinks held in this crate are in-memory vectors whose
/// writes cannot fail, so only callers that drive real sinks produce it.
#[derive(Debug)]
pub enum PoolError {
    /// A send on a pool channel failed because every receiver went away.
    ChannelSend,
    /// A receive on a pool channel failed because every sender went away.
    ChannelReceive,
    /// The codec rejected a level or failed to compress; the reason is kept.
    CompressionError(String),
    /// A sink write or flush failed.
    Io,
}

impl PoolError {
    /// True for the error raised by a failed channel send.
    pub fn is_channel_send(&self) -> (r: bool)
        ensures
            r == (self is ChannelSend),
    {
        match self {
            PoolError::ChannelSend => true,
            _ => false,
        }
    }
}

/// A block compressor used by the pool's workers.
///
/// An implementation turns at most [`Compressor::block_size`] uncompressed
/// bytes into one self-contained compressed block, and appends its format's
/// stream terminator, if it has one, after the terminal block.  Workers do
/// not share an instance: each constructs its own from the pool's
/// compression level.
pub trait Compressor: Sized {
    /// A validated compression level, handed to [`Compressor::new`].
    type CompressionLevel;

    /// The codec's own error.
    type Error;

    /// The most uncompressed bytes one block may carry.
    spec fn spec_block_size() -> nat;

    /// Whether the codec accepts `level` as a compression level.
    spec fn spec_level_valid(level: u8) -> bool;

    /// The level the codec hands back for an accepted numeric level.
    spec fn spec_validated_level(level: u8) -> Self::CompressionLevel;

    /// The level a pool uses when none is configured.
    spec fn spec_default_level() -> Self::CompressionLevel;

    /// The level an instance was built from; all its blocks are compressed
    /// at this level.
    spec fn spec_level(&self) -> Self::CompressionLevel;

    /// The bytes one `compress` call appends to its output: the compressed
    /// block, followed by the stream terminator when the block is terminal.
    spec fn spec_compress(&self, input: Seq<u8>, is_last: bool) -> Seq<u8>;

    /// Whether one `compress` call on this instance and input succeeds.
    spec fn spec_compress_ok(&self, input: Seq<u8>, is_last: bool) -> bool;

    /// The block size; it sets the buffer capacity of every pooled writer.
    fn block_size() -> (r: usize)
        ensures
            r as nat == Self::spec_block_size(),
            r >= 1,
    ;

    /// A compressor instance for the given level.
    fn new(level: Self::CompressionLevel) -> (r: Self)
        ensures
            r.spec_level() == level,
    ;

    /// The level a pool uses when none is configured.
    fn default_compression_level() -> (r: Self::CompressionLevel)
        ensures
            r == Self::spec_default_level(),
    ;

    /// Validates a numeric level: a level the codec accepts is returned as
    /// the codec's own level value, any other rejected.
    fn new_compression_level(level: u8) -> (r: Result<Self::CompressionLevel, Self::Error>)
        ensures
            r is Ok <==> Self::spec_level_valid(level),
            r matches Ok(l) ==> l == Self::spec_validated_level(level),
    ;

    /// Compresses one block, appending to `output` and touching nothing
    /// already there; when `is_last`, the stream terminator follows the
    /// block.  The call succeeds exactly when the codec says it does, on
    /// failure appends nothing, and changes nothing about what the
    /// instance would compress, or accept, later.
    fn compress(&mut self, input: &[u8], output: &mut Vec<u8>, is_last: bool) -> (r: Result<
        (),
        Self::Error,
    >)
        ensures
            r is Ok <==> old(self).spec_compress_ok(input@, is_last),
            r is Ok ==> final(output)@ == old(output)@ + old(self).spec_compress(input@, is_last),
            r is Err ==> final(output)@ == old(output)@,
            final(self).spec_level() == old(self).spec_level(),
            forall|inp: Seq<u8>, il: bool|
                #[trigger] final(self).spec_compress(inp, il) == old(self).spec_compress(inp, il),
            forall|inp: Seq<u8>, il: bool|
                #[trigger] final(self).spec_compress_ok(inp, il) == old(self).spec_compress_ok(
                    inp,
                    il,
                ),
    ;

    /// The codec error as text, for the pool's error reporting.
    fn describe_error(e: Self::Error) -> String;
}

} // verus!
