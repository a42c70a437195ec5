//! End-to-end scenarios: pooled writers feeding a pool that is drained into
//! in-memory sinks, whose contents are then decompressed and compared with
//! what was written.

use std::io::Read;

use pooled_writer::bgzf::BgzfCompressor;
use pooled_writer::pool::{run_pool, PoolBuilder, PoolParts};
use pooled_writer::Compressor;
use pooled_writer::PooledWriter;

const ROUND_BUDGET: u64 = 10_000_000;

/// The 28-byte BGZF EOF block.
const BGZF_EOF: [u8; 28] = [
    0x1f, 0x8b, 0x08, 0x04, 0x00, 0x00, 0x00, 0x00, 0x00, 0xff, 0x06, 0x00, 0x42, 0x43, 0x02,
    0x00, 0x1b, 0x00, 0x03, 0x00, 0x00, 0x00, 0x00, 0x00, 0x00, 0x00, 0x00, 0x00,
];

fn decompress(data: &[u8]) -> Vec<u8> {
    let mut reader = bgzf::Reader::new(data);
    let mut out = Vec::new();
    reader.read_to_end(&mut out).unwrap();
    out
}

fn fresh_sinks(n: usize) -> Vec<Vec<u8>> {
    let mut sinks = Vec::new();
    for _ in 0..n {
        sinks.push(Vec::new());
    }
    sinks
}

fn drain(parts: &PoolParts<BgzfCompressor>, level: u8, sinks: &mut Vec<Vec<u8>>) {
    let mut compressor = BgzfCompressor::new(level);
    let stopped = run_pool(&mut compressor, parts, sinks, ROUND_BUDGET).unwrap();
    assert!(stopped);
}

/// Deterministic pseudo-random bytes, so runs are repeatable.
fn pseudo_bytes(n: usize, seed: u64) -> Vec<u8> {
    let mut state: u64 = seed;
    let mut v = Vec::with_capacity(n);
    for _ in 0..n {
        state = state
            .wrapping_mul(6364136223846793005)
            .wrapping_add(1442695040888963407);
        v.push((state >> 33) as u8);
    }
    v
}

#[test]
fn test_simple() {
    let mut builder = PoolBuilder::<BgzfCompressor>::new(20, 8)
        .compression_level(2)
        .unwrap();
    let mut writers: Vec<PooledWriter> = Vec::new();
    for _ in 0..20 {
        writers.push(builder.exchange());
    }
    let parts = builder.into_parts();
    let mut sinks = fresh_sinks(20);
    for (i, mut writer) in writers.drain(..).enumerate() {
        let text = format!("This is writer {}.", i);
        assert_eq!(writer.write(text.as_bytes()).unwrap(), text.len());
        writer.flush().unwrap();
        writer.close().unwrap();
        // drain as we go: the compressor queue is bounded
        drain(&parts, 2, &mut sinks);
    }
    for (i, sink) in sinks.iter().enumerate() {
        assert_eq!(decompress(sink), format!("This is writer {}.", i).into_bytes());
    }
}

#[test]
fn three_sinks_short_writes() {
    let mut builder = PoolBuilder::<BgzfCompressor>::new(20, 8)
        .compression_level(5)
        .unwrap();
    let mut w1 = builder.exchange();
    let mut w2 = builder.exchange();
    let mut w3 = builder.exchange();
    w1.write(b"This is writer1").unwrap();
    w2.write(b"This is writer2").unwrap();
    w3.write(b"This is writer3").unwrap();
    w1.close().unwrap();
    w2.close().unwrap();
    w3.close().unwrap();
    let parts = builder.into_parts();
    let mut sinks = fresh_sinks(3);
    drain(&parts, 5, &mut sinks);
    assert_eq!(decompress(&sinks[0]), b"This is writer1".to_vec());
    assert_eq!(decompress(&sinks[1]), b"This is writer2".to_vec());
    assert_eq!(decompress(&sinks[2]), b"This is writer3".to_vec());
}

#[test]
fn single_sink_many_blocks() {
    let input = pseudo_bytes(400_000, 11);
    let mut builder = PoolBuilder::<BgzfCompressor>::new(20, 1);
    let mut writer = builder.exchange();
    for chunk in input.chunks(7919) {
        assert_eq!(writer.write(chunk).unwrap(), chunk.len());
    }
    writer.close().unwrap();
    let parts = builder.into_parts();
    let mut sinks = fresh_sinks(1);
    drain(&parts, 5, &mut sinks);
    assert_eq!(decompress(&sinks[0]), input);
}

#[test]
fn many_sinks_few_threads() {
    let mut builder = PoolBuilder::<BgzfCompressor>::new(10, 4);
    let mut writers: Vec<PooledWriter> = Vec::new();
    for _ in 0..64 {
        writers.push(builder.exchange());
    }
    let parts = builder.into_parts();
    let mut sinks = fresh_sinks(64);
    let mut inputs: Vec<Vec<u8>> = Vec::new();
    for (i, mut writer) in writers.drain(..).enumerate() {
        let input = pseudo_bytes(50_000, 1000 + i as u64);
        for chunk in input.chunks(128) {
            assert_eq!(writer.write(chunk).unwrap(), chunk.len());
        }
        writer.close().unwrap();
        // drain as we go: the bounded compressor queue holds only 10 jobs
        drain(&parts, 5, &mut sinks);
        inputs.push(input);
    }
    drain(&parts, 5, &mut sinks);
    for (i, sink) in sinks.iter().enumerate() {
        assert_eq!(decompress(sink), inputs[i]);
    }
}

#[test]
fn empty_close() {
    let mut builder = PoolBuilder::<BgzfCompressor>::new(20, 2);
    let mut writers: Vec<PooledWriter> = Vec::new();
    for _ in 0..4 {
        writers.push(builder.exchange());
    }
    for writer in writers.drain(..) {
        writer.close().unwrap();
    }
    let parts = builder.into_parts();
    let mut sinks = fresh_sinks(4);
    drain(&parts, 5, &mut sinks);
    for sink in &sinks {
        // a closed-but-never-written sink is exactly one EOF block
        assert_eq!(sink.as_slice(), &BGZF_EOF[..]);
        assert_eq!(decompress(sink), Vec::<u8>::new());
    }
}

#[test]
fn flush_dispatches_without_persisting() {
    let mut builder = PoolBuilder::<BgzfCompressor>::new(20, 2);
    let mut writer = builder.exchange();
    writer.write(b"buffered bytes").unwrap();
    writer.flush().unwrap();
    let parts = builder.into_parts();
    let mut sinks = fresh_sinks(1);
    // flush returned, yet nothing has reached the sink
    assert!(sinks[0].is_empty());
    drain(&parts, 5, &mut sinks);
    // only the drain moved the dispatched bytes to the sink
    assert!(!sinks[0].is_empty());
    writer.close().unwrap();
    drain(&parts, 5, &mut sinks);
    assert_eq!(decompress(&sinks[0]), b"buffered bytes".to_vec());
}

#[test]
fn interleaved_writers_keep_per_sink_order() {
    let mut builder = PoolBuilder::<BgzfCompressor>::new(20, 2);
    let mut w0 = builder.exchange();
    let mut w1 = builder.exchange();
    let a = pseudo_bytes(200_000, 7);
    let b = pseudo_bytes(150_000, 8);
    let mut ai: usize = 0;
    let mut bi: usize = 0;
    // alternate writes across the two sinks in uneven chunks
    while ai < a.len() || bi < b.len() {
        if ai < a.len() {
            let hi: usize = (ai + 7000).min(a.len());
            w0.write(&a[ai..hi]).unwrap();
            ai = hi;
        }
        if bi < b.len() {
            let hi: usize = (bi + 11000).min(b.len());
            w1.write(&b[bi..hi]).unwrap();
            bi = hi;
        }
    }
    w0.close().unwrap();
    w1.close().unwrap();
    let parts = builder.into_parts();
    let mut sinks = fresh_sinks(2);
    drain(&parts, 5, &mut sinks);
    assert_eq!(decompress(&sinks[0]), a);
    assert_eq!(decompress(&sinks[1]), b);
}

#[test]
fn block_boundary_inputs_roundtrip() {
    // sizes straddling the block size and its multiples
    let sizes: [usize; 7] = [1, 127, 65_279, 65_280, 65_281, 130_560, 130_561];
    for (k, size) in sizes.iter().enumerate() {
        let input = pseudo_bytes(*size, 40 + k as u64);
        let mut builder = PoolBuilder::<BgzfCompressor>::new(20, 2);
        let mut writer = builder.exchange();
        assert_eq!(writer.write(&input).unwrap(), input.len());
        writer.close().unwrap();
        let parts = builder.into_parts();
        let mut sinks = fresh_sinks(1);
        drain(&parts, 4, &mut sinks);
        assert_eq!(decompress(&sinks[0]), input);
    }
}
