use vstd::prelude::*;
use crate::squashfs_tools::compressor::CompressorError;

verus! {

/// Size of the LZMA properties.
pub const LZMA_PROPS_SIZE: usize = 5;
/// Size of the LZMA header: the properties and 8 bytes of uncompressed size.
pub const LZMA_HEADER_SIZE: usize = 13;

/// The usage text of the LZMA compressors, which take no options.
pub open spec fn lzma_usage_text() -> Seq<char> {
    "\t  (no options) (deprecated - no kernel support)\n"@
}

/// The LZMA compressor.
pub struct LzmaCompressor {
    /// Compression level, 0 to 9.
    pub level: u8,
    /// Dictionary size, as a power of two.
    pub dict_size: u32,
}

impl LzmaCompressor {
    /// A compressor at level 5 with a dictionary of 2^32 bytes.
    pub fn new() -> (r: Self)
        ensures
            r.level == 5 && r.dict_size == 32,
    {
        LzmaCompressor { level: 5, dict_size: 32 }
    }

    /// The usage text: the compressor takes no options.
    pub fn display_usage(&self) -> (r: String)
        ensures
            r@ == lzma_usage_text(),
    {
        String::from_str("\t  (no options) (deprecated - no kernel support)\n")
    }
}

/// The `.lzma` stream that `lzma_rs::lzma_compress` writes for `data`
/// with its default options; `None` where it reports an error.
pub uninterp spec fn lzma_rs_encoding(data: Seq<u8>) -> Option<Seq<u8>>;

/// What `lzma_rs::lzma_decompress` gives for the `.lzma` stream `data`:
/// the decoded bytes, or the text of its error.
pub uninterp spec fn lzma_rs_decoding(data: Seq<u8>) -> Result<Seq<u8>, Seq<char>>;

/// `lzma_rs::lzma_compress` from `data` into a fresh vector. What it
/// writes is the `.lzma` encoding of the data, and decoding that gives the
/// data back.
#[verifier::external_body]
fn lzma_encode(data: &[u8]) -> (r: Option<Vec<u8>>)
    ensures
        match r {
            Some(v) => lzma_rs_encoding(data@) == Some(v@) && (lzma_rs_decoding(v@) matches Ok(d)
                && d == data@),
            None => lzma_rs_encoding(data@) is None,
        },
{
    let mut out = Vec::new();
    let mut input = data;
    match lzma_rs::lzma_compress(&mut input, &mut out) {
        Ok(()) => Some(out),
        Err(_) => None,
    }
}

/// `lzma_rs::lzma_decompress` of `data` into a fresh vector: the decoded
/// bytes, or the text of the error.
#[verifier::external_body]
fn lzma_decode(data: &[u8]) -> (r: Result<Vec<u8>, String>)
    ensures
        match r {
            Ok(v) => lzma_rs_decoding(data@) matches Ok(d) && d == v@,
            Err(m) => lzma_rs_decoding(data@) matches Err(t) && t == m@,
        },
{
    let mut out = Vec::new();
    let mut input = data;
    match lzma_rs::lzma_decompress(&mut input, &mut out) {
        Ok(()) => Ok(out),
        Err(e) => Err(e.to_string()),
    }
}

/// The 8 bytes of the uncompressed size `n` in the header: its low 32
/// bits, little-endian, then four zero bytes.
pub open spec fn size_field(n: nat) -> Seq<u8> {
    seq![
        (n % 256) as u8,
        (n / 256 % 256) as u8,
        (n / 65536 % 256) as u8,
        (n / 16777216 % 256) as u8,
        0u8,
        0u8,
        0u8,
        0u8,
    ]
}

/// The uncompressed size written in a header: the little-endian number in
/// bytes 5 to 9.
pub open spec fn header_size(h: Seq<u8>) -> nat {
    h[5] as nat + h[6] as nat * 256 + h[7] as nat * 65536 + h[8] as nat * 16777216
}

/// A block that compression frames reads back: the size its header
/// records is the size of the data, and its stream, from byte 13 on,
/// decodes to the data. So decompressing what `compress` wrote (its first
/// `13 + e.len()` bytes), into a buffer that has room for the data, gives
/// the data back.
pub proof fn law_lzma_frame_roundtrip(prefix: Seq<u8>, x: Seq<u8>, e: Seq<u8>, rest: Seq<u8>)
    requires
        prefix.len() == 5,
        x.len() < 0x1_0000_0000,
        lzma_rs_decoding(e) == Ok::<Seq<u8>, Seq<char>>(x),
    ensures
        header_size(prefix + size_field(x.len()) + e + rest) == x.len(),
        lzma_rs_decoding((prefix + size_field(x.len()) + e + rest).subrange(13, 13 + e.len() as int))
            == Ok::<Seq<u8>, Seq<char>>(x),
        (prefix + size_field(x.len()) + e + rest).take(13 + e.len() as int).skip(13) == e,
        header_size((prefix + size_field(x.len()) + e + rest).take(13 + e.len() as int)) == x.len(),
{
    let b = prefix + size_field(x.len()) + e + rest;
    let n = x.len();
    assert(b[5] == (n % 256) as u8);
    assert(b[6] == (n / 256 % 256) as u8);
    assert(b[7] == (n / 65536 % 256) as u8);
    assert(b[8] == (n / 16777216 % 256) as u8);
    assert(b.subrange(13, 13 + e.len() as int) =~= e);
    assert(b.take(13 + e.len() as int).skip(13) =~= e);
    assert(header_size(b) == n) by (nonlinear_arith)
        requires
            b[5] == (n % 256) as u8,
            b[6] == (n / 256 % 256) as u8,
            b[7] == (n / 65536 % 256) as u8,
            b[8] == (n / 16777216 % 256) as u8,
            n < 0x1_0000_0000,
            header_size(b) == b[5] as nat + b[6] as nat * 256 + b[7] as nat * 65536 + b[8] as nat
                * 16777216,
    ;
    let t = b.take(13 + e.len() as int);
    assert(t[5] == b[5] && t[6] == b[6] && t[7] == b[7] && t[8] == b[8]);
}

/// Write the header fields of a block of `input_len` bytes around the
/// encoded stream `encoded`: the stream from byte 13 on, the size in bytes
/// 5 to 13, and bytes 0 to 5 left as they were; the size of the block, or
/// an error where the stream does not fit.
pub fn frame_lzma_block(encoded: &[u8], input_len: usize, output: &mut [u8]) -> (r: Result<
    usize,
    CompressorError,
>)
    requires
        old(output)@.len() >= LZMA_HEADER_SIZE,
    ensures
        encoded@.len() > old(output)@.len() - LZMA_HEADER_SIZE ==> (r matches Err(
            CompressorError::CompressionError(m),
        ) && m@ == "failed to write whole buffer"@ && final(output)@ == old(output)@),
        encoded@.len() <= old(output)@.len() - LZMA_HEADER_SIZE ==> (r matches Ok(n) && n
            == encoded@.len() + LZMA_HEADER_SIZE && final(output)@ == old(output)@.take(5) + size_field(
            input_len as nat,
        ) + encoded@ + old(output)@.skip(n as int)),
{
    if encoded.len() > output.len() - LZMA_HEADER_SIZE {
        return Err(CompressorError::CompressionError(String::from_str("failed to write whole buffer")));
    }
    let ghost o0 = output@;
    let olen = output.len();
    let mut i: usize = 0;
    while i < encoded.len()
        invariant
            olen == output@.len(),
            encoded@.len() <= output@.len() - 13,
            output@.len() == o0.len(),
            i <= encoded@.len(),
            forall|k: int| 0 <= k < 13 ==> output@[k] == o0[k],
            forall|k: int| 0 <= k < i ==> output@[13 + k] == encoded@[k],
            forall|k: int| 13 + i <= k < output@.len() ==> output@[k] == o0[k],
        decreases encoded@.len() - i,
    {
        output[13 + i] = encoded[i];
        i = i + 1;
    }
    let size: u64 = input_len as u64;
    output[5] = (size & 0xff) as u8;
    output[6] = ((size >> 8u64) & 0xff) as u8;
    output[7] = ((size >> 16u64) & 0xff) as u8;
    output[8] = ((size >> 24u64) & 0xff) as u8;
    output[9] = 0;
    output[10] = 0;
    output[11] = 0;
    output[12] = 0;
    assert((size & 0xff) == size % 256 && ((size >> 8u64) & 0xff) == size / 256 % 256 && ((size
        >> 16u64) & 0xff) == size / 65536 % 256 && ((size >> 24u64) & 0xff) == size / 16777216
        % 256) by (bit_vector);
    let n = encoded.len() + LZMA_HEADER_SIZE;
    assert(output@ =~= o0.take(5) + size_field(input_len as nat) + encoded@ + o0.skip(n as int));
    Ok(n)
}

/// Read the decoded bytes of a block into `output`: as many as fit.
pub fn copy_decoded(decoded: &[u8], output: &mut [u8]) -> (r: usize)
    ensures
        r == vstd::math::min(decoded@.len() as int, old(output)@.len() as int),
        final(output)@ == decoded@.take(r as int) + old(output)@.skip(r as int),
{
    let n = if decoded.len() < output.len() {
        decoded.len()
    } else {
        output.len()
    };
    let ghost o0 = output@;
    let mut i: usize = 0;
    while i < n
        invariant
            n <= decoded@.len(),
            n <= output@.len(),
            output@.len() == o0.len(),
            i <= n,
            forall|k: int| 0 <= k < i ==> output@[k] == decoded@[k],
            forall|k: int| i <= k < output@.len() ==> output@[k] == o0[k],
        decreases n - i,
    {
        output[i] = decoded[i];
        i = i + 1;
    }
    assert(output@ =~= decoded@.take(n as int) + o0.skip(n as int));
    n
}

impl LzmaCompressor {
    /// Compress `input` into `output`: the `.lzma` stream of the data from
    /// byte 13 on and its size in bytes 5 to 13; the size of the block.
    pub fn compress(&self, input: &[u8], output: &mut [u8]) -> (r: Result<usize, CompressorError>)
        ensures
            old(output)@.len() < LZMA_HEADER_SIZE ==> (r matches Err(
                CompressorError::CompressionError(m),
            ) && m@ == "Output buffer too small"@),
            old(output)@.len() >= LZMA_HEADER_SIZE ==> match lzma_rs_encoding(input@) {
                None => r matches Err(CompressorError::CompressionError(_)),
                Some(e) => if e.len() > old(output)@.len() - LZMA_HEADER_SIZE {
                    r matches Err(CompressorError::CompressionError(m))
                        && m@ == "failed to write whole buffer"@
                } else {
                    r matches Ok(n) && n == e.len() + LZMA_HEADER_SIZE && final(output)@
                        == old(output)@.take(5) + size_field(input@.len()) + e + old(output)@.skip(
                        n as int,
                    )
                },
            },
            r matches Ok(n) ==> lzma_rs_decoding(final(output)@.subrange(LZMA_HEADER_SIZE as int, n as int))
                == Ok::<Seq<u8>, Seq<char>>(input@),
    {
        if output.len() < LZMA_HEADER_SIZE {
            return Err(CompressorError::CompressionError(String::from_str("Output buffer too small")));
        }
        match lzma_encode(input) {
            None => Err(CompressorError::CompressionError(String::from_str("lzma compression failed"))),
            Some(encoded) => {
                let r = frame_lzma_block(encoded.as_slice(), input.len(), output);
                proof {
                    if let Ok(n) = r {
                        assert(output@.subrange(LZMA_HEADER_SIZE as int, n as int) =~= encoded@);
                    }
                }
                r
            },
        }
    }

    /// Decompress the block `input` into `output`: the `.lzma` stream from
    /// byte 13 on is decoded and as much of it as fits is kept; the number
    /// of bytes kept.
    pub fn decompress(&self, input: &[u8], output: &mut [u8]) -> (r: Result<usize, CompressorError>)
        ensures
            input@.len() < LZMA_HEADER_SIZE ==> (r matches Err(
                CompressorError::DecompressionError(m),
            ) && m@ == "Input buffer too small"@ && final(output)@ == old(output)@),
            input@.len() >= LZMA_HEADER_SIZE && header_size(input@) > old(output)@.len() ==> (r matches Err(
                CompressorError::DecompressionError(m),
            ) && m@ == "Output buffer too small"@ && final(output)@ == old(output)@),
            input@.len() >= LZMA_HEADER_SIZE && header_size(input@) <= old(output)@.len() ==> match lzma_rs_decoding(
                input@.skip(13),
            ) {
                Err(m) => r matches Err(CompressorError::DecompressionError(t)) && t@ == m && final(output)@
                    == old(output)@,
                Ok(d) => r matches Ok(n) && n == vstd::math::min(d.len() as int, old(output)@.len() as int)
                    && final(output)@ == d.take(n as int) + old(output)@.skip(n as int),
            },
    {
        if input.len() < LZMA_HEADER_SIZE {
            return Err(CompressorError::DecompressionError(String::from_str("Input buffer too small")));
        }
        let size: u64 = input[5] as u64 | ((input[6] as u64) << 8u64) | ((input[7] as u64) << 16u64)
            | ((input[8] as u64) << 24u64);
        let (b5, b6, b7, b8) = (input[5], input[6], input[7], input[8]);
        assert(b5 as u64 | ((b6 as u64) << 8u64) | ((b7 as u64) << 16u64) | ((b8 as u64) << 24u64)
            == b5 as u64 + b6 as u64 * 256 + b7 as u64 * 65536 + b8 as u64 * 16777216) by (bit_vector);
        if size > output.len() as u64 {
            return Err(CompressorError::DecompressionError(String::from_str("Output buffer too small")));
        }
        let body = vstd::slice::slice_subrange(input, LZMA_HEADER_SIZE, input.len());
        assert(body@ =~= input@.skip(13));
        match lzma_decode(body) {
            Err(m) => Err(CompressorError::DecompressionError(m)),
            Ok(decoded) => Ok(copy_decoded(decoded.as_slice(), output)),
        }
    }

    /// The name of the compressor.
    pub fn name(&self) -> (r: &'static str)
        ensures
            r@ == "lzma"@,
    {
        proof { reveal_strlit("lzma"); }
        "lzma"
    }

    /// The compressor is supported.
    pub fn supported(&self) -> (r: bool)
        ensures
            r,
    {
        true
    }
}

} // verus!
