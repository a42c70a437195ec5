//! Unit-level checks: parameter validation, level validation, the error
//! variants, the codec on single blocks, and sink index assignment.

use std::io::Read;

use pooled_writer::bgzf::BgzfCompressor;
use pooled_writer::channel::{channel_bounded, channel_is_empty, channel_try_recv};
use pooled_writer::pool::{compress_block, params_valid, run_pool, should_stop, write_step, PoolBuilder};
use pooled_writer::writer::WriterMessage;
use pooled_writer::Compressor;
use pooled_writer::PoolError;

/// The 28-byte BGZF EOF block.
const BGZF_EOF: [u8; 28] = [
    0x1f, 0x8b, 0x08, 0x04, 0x00, 0x00, 0x00, 0x00, 0x00, 0xff, 0x06, 0x00, 0x42, 0x43, 0x02,
    0x00, 0x1b, 0x00, 0x03, 0x00, 0x00, 0x00, 0x00, 0x00, 0x00, 0x00, 0x00, 0x00,
];

fn decompress(data: &[u8]) -> Vec<u8> {
    let mut reader = bgzf::Reader::new(data);
    let mut out = Vec::new();
    reader.read_to_end(&mut out).unwrap();
    out
}

#[test]
fn builder_parameter_validity() {
    assert!(!params_valid(20, 0));
    assert!(!params_valid(5, 5));
    assert!(!params_valid(4, 5));
    assert!(params_valid(6, 5));
    assert!(params_valid(20, 8));
}

#[test]
fn compression_level_bounds() {
    assert!(BgzfCompressor::new_compression_level(0).is_ok());
    assert!(BgzfCompressor::new_compression_level(12).is_ok());
    assert!(BgzfCompressor::new_compression_level(13).is_err());
    assert!(BgzfCompressor::new_compression_level(255).is_err());
}

#[test]
fn builder_rejects_invalid_level() {
    let builder = PoolBuilder::<BgzfCompressor>::new(20, 8);
    let r = builder.compression_level(13);
    assert!(matches!(r, Err(PoolError::CompressionError(_))));
    let builder = PoolBuilder::<BgzfCompressor>::new(20, 8);
    assert!(builder.compression_level(9).is_ok());
}

#[test]
fn send_fails_after_pool_parts_dropped() {
    let mut builder = PoolBuilder::<BgzfCompressor>::new(20, 2);
    let mut writer = builder.exchange();
    drop(builder.into_parts());
    let e = writer.flush().unwrap_err();
    assert!(matches!(e, PoolError::ChannelSend));
    assert!(e.is_channel_send());
    let e2 = writer.close().unwrap_err();
    assert!(matches!(e2, PoolError::ChannelSend));
}

#[test]
fn receive_fails_when_senders_gone() {
    let (tx, rx) = channel_bounded::<flume::Receiver<WriterMessage>>(4);
    drop(tx);
    let mut sinks = vec![Vec::new()];
    let e = write_step(&rx, &mut sinks, 0).unwrap_err();
    assert!(matches!(e, PoolError::ChannelReceive));
    assert!(sinks[0].is_empty());
}

#[test]
fn codec_roundtrip_single_block() {
    let mut c = BgzfCompressor::new(6);
    let mut out = Vec::new();
    c.compress(b"hello bgzf block", &mut out, true).unwrap();
    assert!(out.len() > 28);
    assert_eq!(decompress(&out), b"hello bgzf block".to_vec());
}

#[test]
fn codec_empty_terminal_appends_eof_only() {
    let mut c = BgzfCompressor::new(3);
    // compress appends; what the output already held stays put
    let mut out = vec![1u8, 2, 3];
    c.compress(&[], &mut out, true).unwrap();
    assert_eq!(out[..3], [1u8, 2, 3]);
    assert_eq!(&out[3..], &BGZF_EOF[..]);
    let mut fresh = Vec::new();
    c.compress(&[], &mut fresh, true).unwrap();
    assert_eq!(fresh, BGZF_EOF.to_vec());
}

#[test]
fn codec_empty_non_terminal_appends_nothing() {
    let mut c = BgzfCompressor::new(3);
    let mut out = vec![9u8, 9];
    c.compress(&[], &mut out, false).unwrap();
    assert_eq!(out, vec![9u8, 9]);
}

#[test]
fn codec_accepts_full_block_rejects_oversize() {
    // success is owed up to the block size; beyond it the codec refuses
    let mut c = BgzfCompressor::new(1);
    let mut out = Vec::new();
    let full = vec![0u8; 65_280];
    c.compress(&full, &mut out, false).unwrap();
    assert!(!out.is_empty());
    let before = out.clone();
    let oversize = vec![0u8; 65_281];
    assert!(c.compress(&oversize, &mut out, false).is_err());
    // a failed call appends nothing
    assert_eq!(out, before);
}

#[test]
fn codec_rejects_unvalidated_level() {
    let mut c = BgzfCompressor::new(13);
    let mut out = Vec::new();
    assert!(c.compress(b"abc", &mut out, false).is_err());
}

#[test]
fn writers_get_dense_indices() {
    let mut builder = PoolBuilder::<BgzfCompressor>::new(20, 2);
    for i in 0..5usize {
        let w = builder.exchange();
        assert_eq!(w.writer_index(), i);
        w.close().unwrap();
    }
}

#[test]
fn default_level_is_accepted() {
    let level = BgzfCompressor::default_compression_level();
    assert_eq!(level, 5);
    assert!(BgzfCompressor::new_compression_level(level).is_ok());
}

#[test]
fn validated_level_is_the_level_given() {
    for level in 0u8..=12 {
        assert_eq!(BgzfCompressor::new_compression_level(level).unwrap(), level);
    }
}

#[test]
fn dispatched_blocks_respect_block_size_and_terminal_flag() {
    // instrumentation: read the compressor queue directly and look at the
    // jobs a writer dispatches for input spanning several blocks
    let mut builder = PoolBuilder::<BgzfCompressor>::new(20, 2);
    let mut writer = builder.exchange();
    let input = vec![7u8; 150_000];
    assert_eq!(writer.write(&input).unwrap(), input.len());
    writer.close().unwrap();
    let parts = builder.into_parts();
    let m1 = channel_try_recv(&parts.compressor_rx).unwrap();
    let m2 = channel_try_recv(&parts.compressor_rx).unwrap();
    let m3 = channel_try_recv(&parts.compressor_rx).unwrap();
    assert!(channel_try_recv(&parts.compressor_rx).is_none());
    // no job carries more than one block of input
    assert_eq!(m1.buffer.len(), 65_280);
    assert_eq!(m2.buffer.len(), 65_280);
    assert_eq!(m3.buffer.len(), 150_000 - 2 * 65_280);
    // exactly one terminal job, and it is the last dispatched
    assert!(!m1.is_last);
    assert!(!m2.is_last);
    assert!(m3.is_last);
    // all bound for sink 0, and nothing was lost or reordered
    assert_eq!(m1.writer_index, 0);
    assert_eq!(m2.writer_index, 0);
    assert_eq!(m3.writer_index, 0);
    let mut reassembled = Vec::new();
    reassembled.extend_from_slice(&m1.buffer);
    reassembled.extend_from_slice(&m2.buffer);
    reassembled.extend_from_slice(&m3.buffer);
    assert_eq!(reassembled, input);
}

#[test]
fn queues_are_empty_after_drain() {
    let mut builder = PoolBuilder::<BgzfCompressor>::new(20, 2);
    let mut w0 = builder.exchange();
    let mut w1 = builder.exchange();
    w0.write(b"first sink").unwrap();
    w1.write(b"second sink").unwrap();
    w0.close().unwrap();
    w1.close().unwrap();
    let parts = builder.into_parts();
    let mut sinks = vec![Vec::new(), Vec::new()];
    let mut compressor = BgzfCompressor::new(5);
    let stopped = run_pool(&mut compressor, &parts, &mut sinks, 1_000_000).unwrap();
    // the drain stops only once shutdown would be allowed ...
    assert!(stopped);
    // ... which means every queue has been drained dry
    assert!(channel_is_empty(&parts.compressor_rx));
    assert!(channel_is_empty(&parts.write_ready_rx));
    for rx in &parts.writer_rxs {
        assert!(channel_is_empty(rx));
    }
    assert!(!sinks[0].is_empty());
    assert!(!sinks[1].is_empty());
}

#[test]
fn compress_block_matches_codec() {
    let mut c = BgzfCompressor::new(7);
    let block = compress_block(&mut c, b"the worker's own step", true).unwrap();
    assert_eq!(decompress(&block), b"the worker's own step".to_vec());
    let mut bad = BgzfCompressor::new(42);
    let e = compress_block(&mut bad, b"abc", false).unwrap_err();
    assert!(matches!(e, PoolError::CompressionError(_)));
}

#[test]
fn stop_rule_requires_shutdown_and_empty_queues() {
    assert!(should_stop(true, true, true, true));
    assert!(!should_stop(false, true, true, true));
    assert!(!should_stop(true, false, true, true));
    assert!(!should_stop(true, true, false, true));
    assert!(!should_stop(true, true, true, false));
}
