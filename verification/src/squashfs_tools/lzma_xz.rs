use vstd::prelude::*;
use crate::squashfs_tools::compressor::CompressorError;
use crate::squashfs_tools::lzma::{header_size, lzma_usage_text, size_field, LZMA_HEADER_SIZE};

verus! {

/// Default compression level.
pub const LZMA_OPTIONS: u32 = 5;
/// Memory limit of decompression: 32 MiB.
pub const MEMLIMIT: u64 = 33554432;

/// The LZMA compressor that works through liblzma.
pub struct LzmaXzCompressor {
    /// Compression level, 0 to 9.
    pub level: u32,
    /// Dictionary size, as a power of two.
    pub dict_size: u32,
}

impl LzmaXzCompressor {
    /// A compressor at the default level 5 with a dictionary of 2^32 bytes.
    pub fn new() -> (r: Self)
        ensures
            r.level == LZMA_OPTIONS && r.dict_size == 32,
    {
        LzmaXzCompressor { level: LZMA_OPTIONS, dict_size: 32 }
    }

    /// The usage text: the compressor takes no options.
    pub fn display_usage(&self) -> (r: String)
        ensures
            r@ == lzma_usage_text(),
    {
        String::from_str("\t  (no options) (deprecated - no kernel support)\n")
    }
}

#[verifier::external_type_specification]
#[verifier::external_body]
pub struct ExXzStreamError(xz2::stream::Error);

/// The errors liblzma reports, as `xz2::stream::Error` names them.
#[derive(Debug, Clone, Copy, PartialEq, Eq, Structural)]
pub enum XzError {
    Data,
    Options,
    Format,
    MemLimit,
    Mem,
    Program,
    NoCheck,
    UnsupportedCheck,
}

impl XzError {
    /// The text `xz2` gives each error.
    pub fn message(&self) -> (r: String)
        ensures
            r@ == match self {
                XzError::Data => "lzma data error"@,
                XzError::Options => "invalid options"@,
                XzError::Format => "stream/file format not recognized"@,
                XzError::MemLimit => "memory limit reached"@,
                XzError::Mem => "can't allocate memory"@,
                XzError::Program => "liblzma internal error"@,
                XzError::NoCheck => "no integrity check was available"@,
                XzError::UnsupportedCheck => "liblzma not built with check support"@,
            },
    {
        match self {
            XzError::Data => String::from_str("lzma data error"),
            XzError::Options => String::from_str("invalid options"),
            XzError::Format => String::from_str("stream/file format not recognized"),
            XzError::MemLimit => String::from_str("memory limit reached"),
            XzError::Mem => String::from_str("can't allocate memory"),
            XzError::Program => String::from_str("liblzma internal error"),
            XzError::NoCheck => String::from_str("no integrity check was available"),
            XzError::UnsupportedCheck => String::from_str("liblzma not built with check support"),
        }
    }
}

/// Tell the variants of `xz2::stream::Error` apart.
#[verifier::external_body]
fn xz_error(e: xz2::stream::Error) -> XzError {
    match e {
        xz2::stream::Error::Data => XzError::Data,
        xz2::stream::Error::Options => XzError::Options,
        xz2::stream::Error::Format => XzError::Format,
        xz2::stream::Error::MemLimit => XzError::MemLimit,
        xz2::stream::Error::Mem => XzError::Mem,
        xz2::stream::Error::Program => XzError::Program,
        xz2::stream::Error::NoCheck => XzError::NoCheck,
        xz2::stream::Error::UnsupportedCheck => XzError::UnsupportedCheck,
    }
}

/// What a fresh liblzma `.lzma` encoder at preset `level` writes when it
/// is run once (`Action::Run`) on `input` with `room` bytes of output: the
/// bytes written and the number of input bytes used, or nothing where
/// liblzma reports an error.
pub uninterp spec fn lzma_alone_run(input: Seq<u8>, level: u32, room: nat) -> Option<(Seq<u8>, nat)>;

/// What a fresh liblzma `.lzma` decoder, limited to `memlimit` bytes of
/// memory, writes when it is run once (`Action::Run`) on `input` with
/// `room` bytes of output: the bytes written, or nothing where liblzma
/// reports an error.
pub uninterp spec fn lzma_alone_decode_run(input: Seq<u8>, memlimit: u64, room: nat) -> Option<Seq<u8>>;

/// Run a fresh `.lzma` encoder once: `LzmaOptions::new_preset(level)`,
/// `Stream::new_lzma_encoder`, then `Stream::process` with `Action::Run`
/// on `input` into `output` from `out_start` on. The result is named
/// `lzma_alone_run`: the input bytes used and the output bytes written
/// (the stream's totals), which land at `out_start`. liblzma's encoder
/// writes its own 13-byte header first, and a run ends only when the
/// input is used up or the output is full (`lz_encode`'s loop), so at
/// least one of the two holds.
#[verifier::external_body]
fn xz_encode_run(level: u32, input: &[u8], output: &mut [u8], out_start: usize) -> (r: Result<
    (usize, usize),
    xz2::stream::Error,
>)
    requires
        out_start <= old(output)@.len(),
    ensures
        final(output)@.len() == old(output)@.len(),
        match lzma_alone_run(input@, level, (old(output)@.len() - out_start) as nat) {
            Some((bytes, used)) => r matches Ok((u, m)) && u == used && m == bytes.len() && used
                <= input@.len() && m <= old(output)@.len() - out_start && (used == input@.len() || m
                == old(output)@.len() - out_start) && final(output)@ == old(output)@.take(
                out_start as int,
            ) + bytes + old(output)@.skip(out_start + m),
            None => r is Err,
        },
{
    let options = xz2::stream::LzmaOptions::new_preset(level)?;
    let mut stream = xz2::stream::Stream::new_lzma_encoder(&options)?;
    stream.process(input, &mut output[out_start..], xz2::stream::Action::Run)?;
    Ok((stream.total_in() as usize, stream.total_out() as usize))
}

/// Run a fresh `.lzma` decoder once: `Stream::new_lzma_decoder(memlimit)`,
/// then `Stream::process` with `Action::Run` on `input` into `output`. The
/// bytes written are named `lzma_alone_decode_run` and land at the start
/// of `output`.
#[verifier::external_body]
fn xz_decode_run(memlimit: u64, input: &[u8], output: &mut [u8]) -> (r: Result<usize, xz2::stream::Error>)
    ensures
        final(output)@.len() == old(output)@.len(),
        match lzma_alone_decode_run(input@, memlimit, old(output)@.len() as nat) {
            Some(bytes) => r matches Ok(m) && m == bytes.len() && m <= old(output)@.len()
                && final(output)@ == bytes + old(output)@.skip(m as int),
            None => r is Err,
        },
{
    let mut stream = xz2::stream::Stream::new_lzma_decoder(memlimit)?;
    stream.process(input, output, xz2::stream::Action::Run)?;
    Ok(stream.total_out() as usize)
}

/// What compressing `input` into a buffer of `olen` bytes (at least 13)
/// at `level` gives: the end of the block and the encoder's bytes written
/// from byte 13 on, or nothing where liblzma fails. Without input or
/// without room past the header, liblzma is not run; where its output
/// fills the buffer, the end is 0.
pub open spec fn xz_compress_outcome(input: Seq<u8>, level: u32, olen: nat) -> Option<(nat, Seq<u8>)> {
    if input.len() == 0 || olen == 13 {
        Some((13, Seq::empty()))
    } else {
        match lzma_alone_run(input, level, (olen - 13) as nat) {
            None => None,
            Some((bytes, _used)) => if 13 + bytes.len() >= olen {
                Some((0, bytes))
            } else {
                Some((13 + bytes.len(), bytes))
            },
        }
    }
}

/// What decompressing the block `input` into a buffer of `olen` bytes
/// gives, once the sizes are checked: the decoded bytes, or nothing where
/// liblzma fails. With no room, liblzma is not run.
pub open spec fn xz_decompress_outcome(input: Seq<u8>, olen: nat) -> Option<Seq<u8>> {
    if olen == 0 {
        Some(Seq::empty())
    } else {
        lzma_alone_decode_run(input, MEMLIMIT, olen)
    }
}

impl LzmaXzCompressor {
    /// Compress `input` into `output` with liblzma's `.lzma` encoder at the
    /// compressor's level, run once: the encoder's output from byte 13 on,
    /// then the size of the input in bytes 5 to 13; the end of what was
    /// written, or 0 where the output filled up (the header is then not
    /// written).
    pub fn compress(&self, input: &[u8], output: &mut [u8]) -> (r: Result<usize, CompressorError>)
        ensures
            final(output)@.len() == old(output)@.len(),
            old(output)@.len() < LZMA_HEADER_SIZE ==> (r matches Err(
                CompressorError::CompressionError(m),
            ) && m@ == "Output buffer too small"@),
            old(output)@.len() >= LZMA_HEADER_SIZE ==> match xz_compress_outcome(
                input@,
                self.level,
                old(output)@.len(),
            ) {
                None => r matches Err(CompressorError::CompressionError(_)),
                Some((n, bytes)) => r == Ok::<usize, CompressorError>(n as usize) && if n == 0 {
                    final(output)@ == old(output)@.take(13) + bytes + old(output)@.skip(13 + bytes.len() as int)
                } else {
                    final(output)@ == old(output)@.take(5) + size_field(input@.len()) + bytes
                        + old(output)@.skip(n as int)
                },
            },
    {
        if output.len() < LZMA_HEADER_SIZE {
            return Err(CompressorError::CompressionError(String::from_str("Output buffer too small")));
        }
        let ghost o0 = output@;
        let olen = output.len();
        let mut output_pos: usize = LZMA_HEADER_SIZE;
        let ghost mut bytes: Seq<u8> = Seq::empty();
        if input.len() > 0 && olen > LZMA_HEADER_SIZE {
            let (used, made) = match xz_encode_run(self.level, input, output, LZMA_HEADER_SIZE) {
                Ok(t) => t,
                Err(e) => {
                    return Err(CompressorError::CompressionError(xz_error(e).message()));
                },
            };
            proof {
                bytes = output@.subrange(13, 13 + made as int);
                let (named, _u) = lzma_alone_run(input@, self.level, (olen - 13) as nat)->0;
                assert(bytes =~= named);
            }
            output_pos = output_pos + made;
            if output_pos >= olen {
                assert(output@ =~= o0.take(13) + bytes + o0.skip(13 + bytes.len() as int));
                return Ok(0);
            }
        }
        let size: u64 = input.len() as u64;
        let ghost mid = output@;
        assert(mid =~= o0.take(13) + bytes + o0.skip(output_pos as int));
        output[5] = (size & 0xff) as u8;
        output[6] = ((size >> 8u64) & 0xff) as u8;
        output[7] = ((size >> 16u64) & 0xff) as u8;
        output[8] = ((size >> 24u64) & 0xff) as u8;
        output[9] = 0;
        output[10] = 0;
        output[11] = 0;
        output[12] = 0;
        assert((size & 0xff) == size % 256 && ((size >> 8u64) & 0xff) == size / 256 % 256 && ((size
            >> 16u64) & 0xff) == size / 65536 % 256 && ((size >> 24u64) & 0xff) == size / 16777216
            % 256) by (bit_vector);
        assert(output@ =~= o0.take(5) + size_field(input@.len()) + bytes + o0.skip(output_pos as int));
        Ok(output_pos)
    }

    /// Decompress the block `input` into `output` with liblzma's `.lzma`
    /// decoder run once over the whole block (which reads the block's own
    /// first 13 bytes as its header), checking that as many bytes come out
    /// as bytes 5 to 9 say; the number of bytes.
    pub fn decompress(&self, input: &[u8], output: &mut [u8]) -> (r: Result<usize, CompressorError>)
        ensures
            final(output)@.len() == old(output)@.len(),
            input@.len() < LZMA_HEADER_SIZE ==> (r matches Err(
                CompressorError::DecompressionError(m),
            ) && m@ == "Input buffer too small"@ && final(output)@ == old(output)@),
            input@.len() >= LZMA_HEADER_SIZE && header_size(input@) > old(output)@.len() ==> (r matches Err(
                CompressorError::DecompressionError(m),
            ) && m@ == "Output buffer too small"@ && final(output)@ == old(output)@),
            input@.len() >= LZMA_HEADER_SIZE && header_size(input@) <= old(output)@.len() ==> match xz_decompress_outcome(
                input@,
                old(output)@.len(),
            ) {
                None => r matches Err(CompressorError::DecompressionError(_)),
                Some(bytes) => final(output)@ == bytes + old(output)@.skip(bytes.len() as int) && if bytes.len()
                    == header_size(input@) {
                    r == Ok::<usize, CompressorError>(bytes.len() as usize)
                } else {
                    r matches Err(CompressorError::DecompressionError(m)) && m@ == "Size mismatch"@
                },
            },
    {
        if input.len() < LZMA_HEADER_SIZE {
            return Err(CompressorError::DecompressionError(String::from_str("Input buffer too small")));
        }
        let size: u64 = input[5] as u64 | ((input[6] as u64) << 8u64) | ((input[7] as u64) << 16u64)
            | ((input[8] as u64) << 24u64);
        let (b5, b6, b7, b8) = (input[5], input[6], input[7], input[8]);
        assert(b5 as u64 | ((b6 as u64) << 8u64) | ((b7 as u64) << 16u64) | ((b8 as u64) << 24u64)
            == b5 as u64 + b6 as u64 * 256 + b7 as u64 * 65536 + b8 as u64 * 16777216) by (bit_vector);
        if size > output.len() as u64 {
            return Err(CompressorError::DecompressionError(String::from_str("Output buffer too small")));
        }
        let ghost o0 = output@;
        let mut output_pos: usize = 0;
        if output.len() > 0 {
            output_pos = match xz_decode_run(MEMLIMIT, input, output) {
                Ok(m) => m,
                Err(e) => {
                    return Err(CompressorError::DecompressionError(xz_error(e).message()));
                },
            };
        } else {
            assert(o0 =~= Seq::<u8>::empty() + o0.skip(0));
        }
        if output_pos as u64 != size {
            return Err(CompressorError::DecompressionError(String::from_str("Size mismatch")));
        }
        Ok(output_pos)
    }

    /// The name of the compressor.
    pub fn name(&self) -> (r: &'static str)
        ensures
            r@ == "lzma"@,
    {
        proof { reveal_strlit("lzma"); }
        "lzma"
    }

    /// The compressor is supported.
    pub fn supported(&self) -> (r: bool)
        ensures
            r,
    {
        true
    }
}

} // verus!
