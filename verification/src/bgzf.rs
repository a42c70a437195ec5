//! An implementation of [`Compressor`] for the BGZF format.
//!
//! BGZF is block gzip: a stream of independent deflate blocks, each holding
//! at most 65,280 uncompressed bytes, closed by a fixed 28-byte empty EOF
//! block.  The deflate work is done by the `bgzf` crate through the trusted
//! wrappers at the bottom of this file; the logic around them — skipping
//! empty payloads, appending the terminator after the terminal block,
//! validating levels — is verified here.

use vstd::prelude::*;

use crate::Compressor;

verus! {

/// The most uncompressed bytes one BGZF block may carry.
pub const BGZF_BLOCK_SIZE: usize = 65280;

/// The largest compression level the BGZF codec accepts; level 0 stores
/// blocks uncompressed.
pub const BGZF_MAX_LEVEL: u8 = 12;

/// The result of deflating `input` at `level` into one BGZF block: header,
/// deflate payload and footer.  It is a function of its arguments alone;
/// only `bgzf_deflate_block` says which bytes it is.
pub uninterp spec fn bgzf_block_of(level: u8, input: Seq<u8>) -> Seq<u8>;

/// The fixed 28-byte BGZF EOF block that closes a stream.
pub open spec fn bgzf_eof_marker() -> Seq<u8> {
    seq![
        0x1fu8,
        0x8bu8,
        0x08u8,
        0x04u8,
        0x00u8,
        0x00u8,
        0x00u8,
        0x00u8,
        0x00u8,
        0xffu8,
        0x06u8,
        0x00u8,
        0x42u8,
        0x43u8,
        0x02u8,
        0x00u8,
        0x1bu8,
        0x00u8,
        0x03u8,
        0x00u8,
        0x00u8,
        0x00u8,
        0x00u8,
        0x00u8,
        0x00u8,
        0x00u8,
        0x00u8,
        0x00u8,
    ]
}

/// A BGZF compressor: a compression level, applied block by block.
///
/// Every block is self-contained, so the instance carries no state between
/// [`Compressor::compress`] calls.  A level outside the codec's range can
/// only be held by constructing the instance around an unvalidated number;
/// such an instance fails every `compress` call that has bytes to deflate.
pub struct BgzfCompressor {
    /// The compression level, 0 through [`BGZF_MAX_LEVEL`].
    pub level: u8,
}

impl Compressor for BgzfCompressor {
    type CompressionLevel = u8;

    type Error = String;

    open spec fn spec_block_size() -> nat {
        BGZF_BLOCK_SIZE as nat
    }

    open spec fn spec_level_valid(level: u8) -> bool {
        level <= BGZF_MAX_LEVEL
    }

    open spec fn spec_validated_level(level: u8) -> Self::CompressionLevel {
        level
    }

    open spec fn spec_default_level() -> Self::CompressionLevel {
        5
    }

    open spec fn spec_level(&self) -> Self::CompressionLevel {
        self.level
    }

    open spec fn spec_compress(&self, input: Seq<u8>, is_last: bool) -> Seq<u8> {
        (if input.len() > 0 {
            bgzf_block_of(self.level, input)
        } else {
            Seq::<u8>::empty()
        }) + (if is_last {
            bgzf_eof_marker()
        } else {
            Seq::<u8>::empty()
        })
    }

    open spec fn spec_compress_ok(&self, input: Seq<u8>, is_last: bool) -> bool {
        input.len() == 0 || (self.level <= BGZF_MAX_LEVEL && input.len() <= BGZF_BLOCK_SIZE)
    }

    fn block_size() -> (r: usize) {
        BGZF_BLOCK_SIZE
    }

    fn new(level: Self::CompressionLevel) -> Self {
        BgzfCompressor { level }
    }

    fn default_compression_level() -> Self::CompressionLevel {
        5
    }

    fn new_compression_level(level: u8) -> (r: Result<Self::CompressionLevel, Self::Error>) {
        if bgzf_level_ok(level) {
            Ok(level)
        } else {
            Err("invalid compression level".to_string())
        }
    }

    fn compress(&mut self, input: &[u8], output: &mut Vec<u8>, is_last: bool) -> (r: Result<
        (),
        Self::Error,
    >) {
        if input.len() == 0 {
            if is_last {
                append_eof_block(output);
            }
            proof {
                assert(output@ =~= old(output)@ + self.spec_compress(input@, is_last));
            }
            return Ok(());
        }
        if input.len() > BGZF_BLOCK_SIZE {
            return Err("input exceeds the BGZF block size".to_string());
        }
        let mut block = match bgzf_deflate_block(self.level, input) {
            Ok(b) => b,
            Err(e) => {
                return Err(e);
            },
        };
        output.append(&mut block);
        if is_last {
            append_eof_block(output);
        }
        proof {
            assert(output@ =~= old(output)@ + self.spec_compress(input@, is_last));
        }
        Ok(())
    }

    fn describe_error(e: Self::Error) -> String {
        e
    }
}

/// Relies on bgzf::CompressionLevel::new, which accepts exactly the levels
/// 0 through 12 and rejects every other.
#[verifier::external_body]
fn bgzf_level_ok(level: u8) -> (r: bool)
    ensures
        r == (level <= BGZF_MAX_LEVEL),
{
    bgzf::CompressionLevel::new(level).is_ok()
}

/// Relies on bgzf::Compressor::compress, which fills a buffer with one
/// BGZF block holding `input` deflated at `level`, deterministic in `level`
/// and `input`.  It succeeds whenever the level is in range and the input
/// within the block size: the buffer is sized by the codec's own
/// worst-case bound, and a full block's compressed form fits the format's
/// 64 KiB cap.  Also relies on bgzf::CompressionLevel::new (which rejects
/// exactly the levels above 12) and bgzf::Compressor::new to build the
/// one-block compressor it runs.
#[verifier::external_body]
fn bgzf_deflate_block(level: u8, input: &[u8]) -> (r: Result<Vec<u8>, String>)
    ensures
        r matches Ok(v) ==> v@ == bgzf_block_of(level, input@),
        r is Ok ==> level <= BGZF_MAX_LEVEL,
        level <= BGZF_MAX_LEVEL && input@.len() <= BGZF_BLOCK_SIZE ==> r is Ok,
{
    let lvl = match bgzf::CompressionLevel::new(level) {
        Ok(l) => l,
        Err(e) => return Err(format!("{}", e)),
    };
    let mut compressor = bgzf::Compressor::new(lvl);
    let mut block = Vec::new();
    match compressor.compress(input, &mut block) {
        Ok(()) => Ok(block),
        Err(e) => Err(format!("{}", e)),
    }
}

/// Appends the fixed 28-byte BGZF EOF block that closes a stream.
fn append_eof_block(output: &mut Vec<u8>)
    ensures
        final(output)@ == old(output)@ + bgzf_eof_marker(),
{
    output.push(0x1f);
    output.push(0x8b);
    output.push(0x08);
    output.push(0x04);
    output.push(0x00);
    output.push(0x00);
    output.push(0x00);
    output.push(0x00);
    output.push(0x00);
    output.push(0xff);
    output.push(0x06);
    output.push(0x00);
    output.push(0x42);
    output.push(0x43);
    output.push(0x02);
    output.push(0x00);
    output.push(0x1b);
    output.push(0x00);
    output.push(0x03);
    output.push(0x00);
    output.push(0x00);
    output.push(0x00);
    output.push(0x00);
    output.push(0x00);
    output.push(0x00);
    output.push(0x00);
    output.push(0x00);
    output.push(0x00);
    proof {
        assert(output@ =~= old(output)@ + bgzf_eof_marker());
    }
}

} // verus!
