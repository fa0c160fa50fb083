use vstd::prelude::*;
use crate::bytes::{le_bytes_value, le_value};
use crate::error::io_error_text;
use crate::squashfs_tools::compressor::CompressorError;
use crate::squashfs_tools::endian::{inswap_le32, is_big_endian, machine_is_big_endian};
use crate::squashfs_tools::swap::{lemma_swapped32, swapped32};
use crate::text::{concat, str_eq};

verus! {

/// The only LZ4 stream format: the legacy one.
pub const LZ4_LEGACY: u32 = 1;
/// The flags that LZ4 options may carry.
pub const LZ4_FLAGS_MASK: u32 = 1;
/// Flag of high compression.
pub const LZ4_HC: u32 = 1;
/// Bytes the options take on disk.
pub const LZ4_COMP_OPTS_SIZE: usize = 8;

/// LZ4 compression options as they are stored in the file system.
#[derive(Debug, Clone, Copy, PartialEq, Eq, Structural)]
pub struct Lz4CompOpts {
    /// Stream format version.
    pub version: u32,
    /// Compression flags.
    pub flags: u32,
}

impl Lz4CompOpts {
    /// The options of the legacy format without flags.
    pub fn new() -> (r: Self)
        ensures
            r.version == LZ4_LEGACY && r.flags == 0,
    {
        Lz4CompOpts { version: LZ4_LEGACY, flags: 0 }
    }

    /// Convert the options between the on-disk little-endian order and this
    /// machine's order: the bytes are reversed on big-endian machines.
    pub fn swap_endianness(&mut self)
        ensures
            *final(self) == (if machine_is_big_endian() {
                (Lz4CompOpts { version: swapped32(old(self).version), flags: swapped32(old(self).flags) })
            } else {
                *old(self)
            }),
    {
        if is_big_endian() {
            let v = inswap_le32(self.version);
            let f = inswap_le32(self.flags);
            proof {
                lemma_swapped32(self.version, v);
                lemma_swapped32(self.flags, f);
            }
            self.version = v;
            self.flags = f;
        }
    }
}

/// The options stored at the start of `buffer`: two little-endian 32-bit
/// numbers, the version and the flags.
pub open spec fn stored_lz4_opts(buffer: Seq<u8>) -> Lz4CompOpts {
    Lz4CompOpts {
        version: le_value(buffer.take(4)) as u32,
        flags: le_value(buffer.subrange(4, 8)) as u32,
    }
}

/// Whether `r` is the error `OptionsError` with message `m`.
pub open spec fn is_options_error<T>(r: Result<T, CompressorError>, m: Seq<char>) -> bool {
    r matches Err(CompressorError::OptionsError(e)) && e@ == m
}

/// The flags that the high compression mode `hc` gives.
pub open spec fn lz4_flags(hc: bool) -> u32 {
    if hc {
        LZ4_HC
    } else {
        0
    }
}

/// The on-disk bytes of 32-bit `x`: little-endian.
pub open spec fn le32_bytes(x: u32) -> Seq<u8> {
    seq![(x % 256) as u8, (x / 256 % 256) as u8, (x / 65536 % 256) as u8, (x / 16777216) as u8]
}

/// The on-disk bytes of the options: each field little-endian, which is
/// their memory order on a little-endian machine and the memory order of
/// the swapped options that `dump_options` gives on a big-endian one.
pub open spec fn lz4_opts_disk_bytes(o: Lz4CompOpts) -> Seq<u8> {
    le32_bytes(o.version) + le32_bytes(o.flags)
}

/// Dumping the options and extracting them again restores the mode: the
/// on-disk bytes of the options of mode `hc` read back as the legacy
/// version, with no unknown flag and the high compression flag set exactly
/// when `hc` is.
pub proof fn law_lz4_options_roundtrip(hc: bool)
    ensures
        ({
            let o = stored_lz4_opts(lz4_opts_disk_bytes(Lz4CompOpts { version: LZ4_LEGACY, flags: lz4_flags(hc) }));
            &&& o.version == LZ4_LEGACY
            &&& o.flags == lz4_flags(hc)
            &&& o.flags & !LZ4_FLAGS_MASK == 0
            &&& (o.flags & LZ4_HC != 0) == hc
        }),
{
    let f = lz4_flags(hc);
    let b = lz4_opts_disk_bytes(Lz4CompOpts { version: LZ4_LEGACY, flags: f });
    assert(b.take(4) =~= seq![1u8, 0u8, 0u8, 0u8]);
    assert(b.subrange(4, 8) =~= seq![f as u8, 0u8, 0u8, 0u8]);
    reveal_with_fuel(crate::bytes::le_value, 5);
    assert(seq![1u8, 0u8, 0u8, 0u8].skip(1) =~= seq![0u8, 0u8, 0u8]);
    assert(seq![0u8, 0u8, 0u8].skip(1) =~= seq![0u8, 0u8]);
    assert(seq![0u8, 0u8].skip(1) =~= seq![0u8]);
    assert(seq![0u8].skip(1) =~= Seq::<u8>::empty());
    assert(seq![f as u8, 0u8, 0u8, 0u8].skip(1) =~= seq![0u8, 0u8, 0u8]);
    assert(1u32 & !1u32 == 0 && 0u32 & !1u32 == 0 && 1u32 & 1u32 != 0 && 0u32 & 1u32 == 0) by (bit_vector);
}

/// The LZ4 compressor.
pub struct Lz4Compressor {
    /// Whether to use high compression mode.
    pub hc: bool,
}

fn read_opts(buffer: &[u8]) -> (r: Lz4CompOpts)
    requires
        buffer@.len() >= 8,
    ensures
        r == stored_lz4_opts(buffer@),
{
    let v = le_bytes_value(buffer, 4);
    let tail = vstd::slice::slice_subrange(buffer, 4, 8);
    let f = le_bytes_value(tail, 4);
    proof {
        assert(tail@.take(4) =~= buffer@.subrange(4, 8));
        crate::bytes::lemma_le_value_bound(buffer@.take(4));
        crate::bytes::lemma_le_value_bound(buffer@.subrange(4, 8));
        reveal_with_fuel(crate::bytes::pow256, 5);
    }
    Lz4CompOpts { version: v as u32, flags: f as u32 }
}

/// What `LZ4_compress_default` writes when it compresses `input` as one
/// LZ4 block into a buffer of `room` bytes, or nothing where it reports a
/// failure (the input is too long for LZ4, or the block does not fit).
pub uninterp spec fn lz4_block_encode(input: Seq<u8>, room: nat) -> Option<Seq<u8>>;

/// What `LZ4_decompress_safe` writes when it decodes the block `input`
/// with room for `size` bytes, or nothing where the block is malformed,
/// does not fit, or `size` is out of LZ4's range.
pub uninterp spec fn lz4_block_decode(input: Seq<u8>, size: i32) -> Option<Seq<u8>>;

/// Compress `input` as one LZ4 block into `output` with
/// `lz4::block::compress_to_buffer` (default mode, no size prefix). Its
/// result is named `lz4_block_encode`: a block of at least one byte, no
/// longer than `output`, at the start of `output`. What LZ4 leaves in the
/// rest of `output` is not stated.
#[verifier::external_body]
fn lz4_compress_block(input: &[u8], output: &mut [u8]) -> (r: Result<usize, std::io::Error>)
    ensures
        final(output)@.len() == old(output)@.len(),
        match lz4_block_encode(input@, old(output)@.len() as nat) {
            Some(bytes) => r matches Ok(n) && n == bytes.len() && 1 <= n <= old(output)@.len()
                && final(output)@.take(n as int) == bytes,
            None => r is Err,
        },
{
    lz4::block::compress_to_buffer(input, None, false, output)
}

/// Decode the LZ4 block `input` into `output` with
/// `lz4::block::decompress_to_buffer`, with room for `size` bytes. Its
/// result is named `lz4_block_decode`: at most `size` bytes at the start
/// of `output`. What LZ4 leaves in the rest of `output` is not stated.
#[verifier::external_body]
fn lz4_decompress_block(input: &[u8], size: i32, output: &mut [u8]) -> (r: Result<usize, std::io::Error>)
    requires
        0 <= size <= old(output)@.len(),
    ensures
        final(output)@.len() == old(output)@.len(),
        match lz4_block_decode(input@, size) {
            Some(bytes) => r matches Ok(n) && n == bytes.len() && n <= size && final(output)@.take(
                n as int,
            ) == bytes,
            None => r is Err,
        },
{
    lz4::block::decompress_to_buffer(input, Some(size), output)
}

impl Lz4Compressor {
    /// A compressor without high compression.
    pub fn new() -> (r: Self)
        ensures
            !r.hc,
    {
        Lz4Compressor { hc: false }
    }

    /// Read one LZ4 option from the start of `args`: `-Xhc` turns on high
    /// compression and takes no value.
    pub fn parse_options(&mut self, args: &[String]) -> (r: Result<usize, CompressorError>)
        ensures
            args@.len() == 0 ==> is_options_error(r, "No option provided"@) && final(self).hc
                == old(self).hc,
            args@.len() > 0 && args@[0]@ == "-Xhc"@ ==> (r matches Ok(k) && k == 0) && final(self).hc,
            args@.len() > 0 && args@[0]@ != "-Xhc"@ ==> is_options_error(
                r,
                "Unknown option: "@ + args@[0]@,
            ) && final(self).hc == old(self).hc,
    {
        if args.len() == 0 {
            return Err(CompressorError::OptionsError(String::from_str("No option provided")));
        }
        if str_eq(args[0].as_str(), "-Xhc") {
            self.hc = true;
            Ok(0)
        } else {
            Err(CompressorError::OptionsError(concat("Unknown option: ", args[0].as_str())))
        }
    }

    /// The options to store in the file system, converted to the on-disk
    /// byte order.
    pub fn dump_options(&self, block_size: usize) -> (r: Result<Lz4CompOpts, CompressorError>)
        ensures
            r matches Ok(o) && o == (if machine_is_big_endian() {
                Lz4CompOpts { version: swapped32(LZ4_LEGACY), flags: swapped32(lz4_flags(self.hc)) }
            } else {
                Lz4CompOpts { version: LZ4_LEGACY, flags: lz4_flags(self.hc) }
            }),
    {
        let mut opts = Lz4CompOpts::new();
        opts.flags = if self.hc {
            LZ4_HC
        } else {
            0
        };
        opts.swap_endianness();
        Ok(opts)
    }

    /// Take the options stored in `buffer`: the legacy format and no
    /// unknown flag, whose high compression flag then sets the mode.
    pub fn extract_options(&mut self, block_size: usize, buffer: &[u8]) -> (r: Result<(), CompressorError>)
        ensures
            buffer@.len() < 8 ==> is_options_error(r, "Buffer too small"@) && final(self).hc
                == old(self).hc,
            buffer@.len() >= 8 ==> ({
                let o = stored_lz4_opts(buffer@);
                if o.version != LZ4_LEGACY {
                    is_options_error(r, "Unknown LZ4 version"@) && final(self).hc == old(self).hc
                } else if o.flags & !LZ4_FLAGS_MASK != 0 {
                    is_options_error(r, "Unknown LZ4 flags"@) && final(self).hc == old(self).hc
                } else {
                    r is Ok && final(self).hc == (o.flags & LZ4_HC != 0)
                }
            }),
    {
        if buffer.len() < LZ4_COMP_OPTS_SIZE {
            return Err(CompressorError::OptionsError(String::from_str("Buffer too small")));
        }
        let opts = read_opts(buffer);
        if opts.version != LZ4_LEGACY {
            return Err(CompressorError::OptionsError(String::from_str("Unknown LZ4 version")));
        }
        if opts.flags & !LZ4_FLAGS_MASK != 0 {
            return Err(CompressorError::OptionsError(String::from_str("Unknown LZ4 flags")));
        }
        self.hc = opts.flags & LZ4_HC != 0;
        Ok(())
    }

    /// Check that `buffer` stores options of the legacy format.
    pub fn check_options(&self, block_size: usize, buffer: &[u8]) -> (r: Result<(), CompressorError>)
        ensures
            buffer@.len() < 8 ==> is_options_error(r, "Buffer too small"@),
            buffer@.len() >= 8 && stored_lz4_opts(buffer@).version != LZ4_LEGACY
                ==> is_options_error(r, "Unknown LZ4 version"@),
            buffer@.len() >= 8 && stored_lz4_opts(buffer@).version == LZ4_LEGACY ==> r is Ok,
    {
        if buffer.len() < LZ4_COMP_OPTS_SIZE {
            return Err(CompressorError::OptionsError(String::from_str("Buffer too small")));
        }
        let opts = read_opts(buffer);
        if opts.version != LZ4_LEGACY {
            return Err(CompressorError::OptionsError(String::from_str("Unknown LZ4 version")));
        }
        Ok(())
    }

    /// The text that shows the options stored in `buffer`.
    pub fn display_options(&self, buffer: &[u8]) -> (r: Result<String, CompressorError>)
        ensures
            buffer@.len() < 8 ==> is_options_error(r, "Buffer too small"@),
            buffer@.len() >= 8 ==> ({
                let o = stored_lz4_opts(buffer@);
                if o.version != LZ4_LEGACY {
                    is_options_error(r, "Unknown LZ4 version"@)
                } else if o.flags & !LZ4_FLAGS_MASK != 0 {
                    is_options_error(r, "Unknown LZ4 flags"@)
                } else if o.flags & LZ4_HC != 0 {
                    r matches Ok(s) && s@ == "\tHigh Compression option specified (-Xhc)\n"@
                } else {
                    r matches Ok(s) && s@ == Seq::<char>::empty()
                }
            }),
    {
        if buffer.len() < LZ4_COMP_OPTS_SIZE {
            return Err(CompressorError::OptionsError(String::from_str("Buffer too small")));
        }
        let opts = read_opts(buffer);
        if opts.version != LZ4_LEGACY {
            return Err(CompressorError::OptionsError(String::from_str("Unknown LZ4 version")));
        }
        if opts.flags & !LZ4_FLAGS_MASK != 0 {
            return Err(CompressorError::OptionsError(String::from_str("Unknown LZ4 flags")));
        }
        if opts.flags & LZ4_HC != 0 {
            Ok(String::from_str("\tHigh Compression option specified (-Xhc)\n"))
        } else {
            Ok(String::new())
        }
    }

    /// Compress `input` as one LZ4 block at the start of `output`: its
    /// length, or a compression error where LZ4 fails (the block does not
    /// fit). High compression is recorded in the options only; blocks are
    /// compressed the same way either way.
    pub fn compress(&self, input: &[u8], output: &mut [u8]) -> (r: Result<usize, CompressorError>)
        ensures
            final(output)@.len() == old(output)@.len(),
            match lz4_block_encode(input@, old(output)@.len() as nat) {
                Some(bytes) => r matches Ok(n) && n == bytes.len() && n > 0 && final(output)@.take(
                    n as int,
                ) == bytes,
                None => r matches Err(CompressorError::CompressionError(_)),
            },
    {
        match lz4_compress_block(input, output) {
            Ok(n) => Ok(n),
            Err(e) => Err(CompressorError::CompressionError(io_error_text(&e))),
        }
    }

    /// The room a block is decoded with: the length of `output`, as far as
    /// LZ4's sizes (`i32`) reach.
    pub open spec fn decode_room(len: nat) -> i32 {
        if len <= i32::MAX {
            len as i32
        } else {
            i32::MAX
        }
    }

    /// Decode the LZ4 block `input` into `output`: the number of bytes
    /// decoded, or a decompression error where the block is malformed or
    /// its contents do not fit.
    pub fn decompress(&self, input: &[u8], output: &mut [u8]) -> (r: Result<usize, CompressorError>)
        ensures
            final(output)@.len() == old(output)@.len(),
            match lz4_block_decode(input@, Self::decode_room(old(output)@.len())) {
                Some(bytes) => r matches Ok(n) && n == bytes.len() && final(output)@.take(n as int)
                    == bytes,
                None => r matches Err(CompressorError::DecompressionError(_)),
            },
    {
        let size: i32 = if output.len() <= 2147483647usize {
            output.len() as i32
        } else {
            2147483647i32
        };
        match lz4_decompress_block(input, size, output) {
            Ok(n) => Ok(n),
            Err(e) => Err(CompressorError::DecompressionError(io_error_text(&e))),
        }
    }

    /// The name of the compressor.
    pub fn name(&self) -> (r: &'static str)
        ensures
            r@ == "lz4"@,
    {
        "lz4"
    }

    /// LZ4 is supported.
    pub fn supported(&self) -> (r: bool)
        ensures
            r,
    {
        true
    }
}

} // verus!
