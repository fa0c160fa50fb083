use vstd::prelude::*;
use crate::error::io_error_text;
use crate::squashfs_tools::compat::swapped_i32;
use crate::squashfs_tools::endian::{inswap_le16, inswap_le32, is_big_endian, machine_is_big_endian};
use crate::squashfs_tools::swap::{lemma_swapped16, lemma_swapped32, swapped16};
use crate::text::{
    concat, i64_to_decimal, int_parse_message, parse_decimal, parse_decimal_spec, push_str,
    signed_decimal, str_eq,
};
use std::io::Write;

verus! {

/// Default compression level.
pub const GZIP_DEFAULT_COMPRESSION_LEVEL: i32 = 9;
/// Default window size.
pub const GZIP_DEFAULT_WINDOW_SIZE: i32 = 15;

/// Compression strategies of zlib.
#[derive(Debug, Clone, Copy, PartialEq, Eq, Structural)]
pub enum CompressionStrategy {
    Default,
    Filtered,
    HuffmanOnly,
    RunLengthEncoded,
    Fixed,
}

/// The number by which zlib knows a strategy.
pub open spec fn strategy_value(s: CompressionStrategy) -> i32 {
    match s {
        CompressionStrategy::Default => 0,
        CompressionStrategy::Filtered => 1,
        CompressionStrategy::HuffmanOnly => 2,
        CompressionStrategy::RunLengthEncoded => 3,
        CompressionStrategy::Fixed => 4,
    }
}

/// The name of a strategy on the command line.
pub open spec fn strategy_name(s: CompressionStrategy) -> Seq<char> {
    match s {
        CompressionStrategy::Default => "default"@,
        CompressionStrategy::Filtered => "filtered"@,
        CompressionStrategy::HuffmanOnly => "huffman_only"@,
        CompressionStrategy::RunLengthEncoded => "run_length_encoded"@,
        CompressionStrategy::Fixed => "fixed"@,
    }
}

/// The strategy with the given command-line name, if any.
pub open spec fn strategy_named(s: Seq<char>) -> Option<CompressionStrategy> {
    if s == "default"@ {
        Some(CompressionStrategy::Default)
    } else if s == "filtered"@ {
        Some(CompressionStrategy::Filtered)
    } else if s == "huffman_only"@ {
        Some(CompressionStrategy::HuffmanOnly)
    } else if s == "run_length_encoded"@ {
        Some(CompressionStrategy::RunLengthEncoded)
    } else if s == "fixed"@ {
        Some(CompressionStrategy::Fixed)
    } else {
        None
    }
}

impl CompressionStrategy {
    /// The name of the strategy on the command line.
    pub fn name(&self) -> (r: &'static str)
        ensures
            r@ == strategy_name(*self),
    {
        match self {
            CompressionStrategy::Default => "default",
            CompressionStrategy::Filtered => "filtered",
            CompressionStrategy::HuffmanOnly => "huffman_only",
            CompressionStrategy::RunLengthEncoded => "run_length_encoded",
            CompressionStrategy::Fixed => "fixed",
        }
    }

    /// The number by which zlib knows the strategy.
    pub fn value(&self) -> (r: i32)
        ensures
            r == strategy_value(*self),
    {
        match self {
            CompressionStrategy::Default => 0,
            CompressionStrategy::Filtered => 1,
            CompressionStrategy::HuffmanOnly => 2,
            CompressionStrategy::RunLengthEncoded => 3,
            CompressionStrategy::Fixed => 4,
        }
    }
}

fn strategy_from_name(s: &str) -> (r: Option<CompressionStrategy>)
    ensures
        r == strategy_named(s@),
{
    if str_eq(s, "default") {
        Some(CompressionStrategy::Default)
    } else if str_eq(s, "filtered") {
        Some(CompressionStrategy::Filtered)
    } else if str_eq(s, "huffman_only") {
        Some(CompressionStrategy::HuffmanOnly)
    } else if str_eq(s, "run_length_encoded") {
        Some(CompressionStrategy::RunLengthEncoded)
    } else if str_eq(s, "fixed") {
        Some(CompressionStrategy::Fixed)
    } else {
        None
    }
}

/// Gzip compression options as they are stored in the file system.
#[derive(Debug, Clone, Copy, PartialEq, Eq, Structural)]
pub struct GzipCompOpts {
    pub compression_level: i32,
    pub window_size: i16,
    pub strategy: i16,
}

/// The options with the bytes of each field reversed.
pub open spec fn gzip_opts_swapped(o: GzipCompOpts) -> GzipCompOpts {
    GzipCompOpts {
        compression_level: swapped_i32(o.compression_level),
        window_size: swapped16(o.window_size as u16) as i16,
        strategy: swapped16(o.strategy as u16) as i16,
    }
}

impl GzipCompOpts {
    /// The default options: level 9, window size 15, default strategy.
    pub fn new() -> (r: Self)
        ensures
            r.compression_level == GZIP_DEFAULT_COMPRESSION_LEVEL,
            r.window_size == GZIP_DEFAULT_WINDOW_SIZE,
            r.strategy == 0,
    {
        GzipCompOpts {
            compression_level: GZIP_DEFAULT_COMPRESSION_LEVEL,
            window_size: 15,
            strategy: CompressionStrategy::Default.value() as i16,
        }
    }

    /// Convert the options between the on-disk little-endian order and this
    /// machine's order: the bytes are reversed on big-endian machines.
    pub fn swap_endianness(&mut self)
        ensures
            *final(self) == (if machine_is_big_endian() {
                gzip_opts_swapped(*old(self))
            } else {
                *old(self)
            }),
    {
        if is_big_endian() {
            let l = inswap_le32(self.compression_level as u32);
            let w = inswap_le16(self.window_size as u16);
            let s = inswap_le16(self.strategy as u16);
            proof {
                lemma_swapped32(self.compression_level as u32, l);
                lemma_swapped16(self.window_size as u16, w);
                lemma_swapped16(self.strategy as u16, s);
            }
            self.compression_level = l as i32;
            self.window_size = w as i16;
            self.strategy = s as i16;
        }
    }
}

/// One strategy of a compression stream and its output buffer.
#[derive(Debug)]
pub struct GzipStrategy {
    pub strategy: i32,
    pub length: i32,
    pub buffer: Vec<u8>,
}

/// The strategies a compression stream tries.
#[derive(Debug)]
pub struct GzipStream {
    pub strategies: Vec<GzipStrategy>,
}

impl GzipStream {
    /// A stream with one empty buffer per strategy, in the given order.
    pub fn new(block_size: usize, strategies: Vec<CompressionStrategy>) -> (r: Self)
        ensures
            r.strategies@.len() == strategies@.len(),
            forall|i: int|
                0 <= i < strategies@.len() ==> #[trigger] r.strategies@[i].strategy
                    == strategy_value(strategies@[i]) && r.strategies@[i].length == 0
                    && r.strategies@[i].buffer@.len() == 0,
    {
        let mut out: Vec<GzipStrategy> = Vec::new();
        let mut i: usize = 0;
        while i < strategies.len()
            invariant
                i <= strategies@.len(),
                out@.len() == i,
                forall|k: int|
                    0 <= k < i ==> #[trigger] out@[k].strategy == strategy_value(strategies@[k])
                        && out@[k].length == 0 && out@[k].buffer@.len() == 0,
            decreases strategies@.len() - i,
        {
            let buffer: Vec<u8> = Vec::with_capacity(block_size);
            out.push(GzipStrategy { strategy: strategies[i].value(), length: 0, buffer });
            i = i + 1;
        }
        GzipStream { strategies: out }
    }
}

/// Errors of the gzip compressor.
#[derive(Debug)]
pub enum GzipError {
    CompressionError(String),
    DecompressionError(String),
    InvalidOptions(String),
    IOError(std::io::Error),
    BufferOverflow,
}

impl GzipError {
    /// The message that describes the error.
    pub fn message(&self) -> (r: String)
        ensures
            match self {
                GzipError::CompressionError(m) => r@ == "Compression error: "@ + m@,
                GzipError::DecompressionError(m) => r@ == "Decompression error: "@ + m@,
                GzipError::InvalidOptions(m) => r@ == "Invalid options: "@ + m@,
                GzipError::IOError(_) => exists|t: Seq<char>| r@ == "IO error: "@ + t,
                GzipError::BufferOverflow => r@ == "Buffer overflow"@,
            },
    {
        match self {
            GzipError::CompressionError(m) => concat("Compression error: ", m.as_str()),
            GzipError::DecompressionError(m) => concat("Decompression error: ", m.as_str()),
            GzipError::InvalidOptions(m) => concat("Invalid options: ", m.as_str()),
            GzipError::IOError(e) => {
                let t = io_error_text(e);
                concat("IO error: ", t.as_str())
            },
            GzipError::BufferOverflow => String::from_str("Buffer overflow"),
        }
    }
}

/// The raw deflate stream that flate2 writes for `data` at compression
/// `level`.
pub uninterp spec fn deflate_stream(data: Seq<u8>, level: u32) -> Seq<u8>;

/// What flate2 decodes from the raw deflate stream `data`: the data it
/// encodes, or nothing where flate2 reports an error.
pub uninterp spec fn inflate_stream(data: Seq<u8>) -> Option<Seq<u8>>;

/// What becomes of a block handed to flate2: the bytes that came out, or
/// the error of the write or of the final flush.
pub enum CodecOutcome {
    Done(Vec<u8>),
    WriteFailed(std::io::Error),
    FinishFailed(std::io::Error),
}

/// Deflate `data` with flate2's `DeflateEncoder` at compression `level`
/// (`write_all`, then `finish`). What comes out is the deflate stream of the
/// data at that level, and flate2's decoder gives the data back from it.
/// flate2 asserts, in debug builds, that the level is at most 10. Writing
/// into a vector cannot fail, and flate2's miniz_oxide back end reports a
/// compression error only for a stream used after it finished (`BadParam`)
/// or for an output callback (`PutBufFailed`), neither of which this
/// sequence of calls meets: the result is always `Done`.
#[verifier::external_body]
fn deflate_block(data: &[u8], level: u32) -> (r: CodecOutcome)
    requires
        level <= 10,
    ensures
        r is Done,
        r matches CodecOutcome::Done(v) ==> v@ == deflate_stream(data@, level) && inflate_stream(
            v@,
        ) == Some(data@),
{
    let mut encoder = flate2::write::DeflateEncoder::new(Vec::new(), flate2::Compression::new(level));
    if let Err(e) = encoder.write_all(data) {
        return CodecOutcome::WriteFailed(e);
    }
    match encoder.finish() {
        Ok(v) => CodecOutcome::Done(v),
        Err(e) => CodecOutcome::FinishFailed(e),
    }
}

/// Inflate `data` with flate2's `DeflateDecoder` (`write_all`, then
/// `finish`): the decoded data, or an error exactly where `inflate_stream`
/// has nothing.
#[verifier::external_body]
fn inflate_block(data: &[u8]) -> (r: CodecOutcome)
    ensures
        match r {
            CodecOutcome::Done(v) => inflate_stream(data@) == Some(v@),
            _ => inflate_stream(data@) is None,
        },
{
    let mut decoder = flate2::write::DeflateDecoder::new(Vec::new());
    if let Err(e) = decoder.write_all(data) {
        return CodecOutcome::WriteFailed(e);
    }
    match decoder.finish() {
        Ok(v) => CodecOutcome::Done(v),
        Err(e) => CodecOutcome::FinishFailed(e),
    }
}

/// Copy `src` into the start of `dest`.
fn copy_into(dest: &mut [u8], src: &[u8])
    requires
        src@.len() <= old(dest)@.len(),
    ensures
        final(dest)@ == src@ + old(dest)@.skip(src@.len() as int),
{
    let ghost d0 = dest@;
    let mut i: usize = 0;
    while i < src.len()
        invariant
            src@.len() <= d0.len(),
            dest@.len() == d0.len(),
            i <= src@.len(),
            forall|k: int| 0 <= k < i ==> #[trigger] dest@[k] == src@[k],
            forall|k: int| i <= k < d0.len() ==> #[trigger] dest@[k] == d0[k],
        decreases src@.len() - i,
    {
        dest[i] = src[i];
        i = i + 1;
    }
    assert(dest@ =~= src@ + d0.skip(src@.len() as int));
}

/// The outcome of reading gzip options from `args` when the options are
/// `o`: the number of arguments consumed beyond the first and the new
/// options, or the message of the error.
pub open spec fn gzip_parse_spec(o: GzipCompOpts, args: Seq<String>) -> Result<
    (int, GzipCompOpts),
    Seq<char>,
> {
    if args.len() == 0 {
        Ok((0, o))
    } else if args[0]@ == "-Xcompression-level"@ {
        if args.len() < 2 {
            Err("Missing compression level"@)
        } else {
            match parse_decimal_spec(args[1]@, i32::MIN as int, i32::MAX as int) {
                Err(e) => Err("Invalid compression level: "@ + int_parse_message(e)),
                Ok(l) => if l < 1 || l > 9 {
                    Err("Compression level must be between 1 and 9"@)
                } else {
                    Ok(
                        (
                            1,
                            GzipCompOpts {
                                compression_level: l as i32,
                                window_size: o.window_size,
                                strategy: o.strategy,
                            },
                        ),
                    )
                },
            }
        }
    } else if args[0]@ == "-Xwindow-size"@ {
        if args.len() < 2 {
            Err("Missing window size"@)
        } else {
            match parse_decimal_spec(args[1]@, i32::MIN as int, i32::MAX as int) {
                Err(e) => Err("Invalid window size: "@ + int_parse_message(e)),
                Ok(w) => if w < 8 || w > 15 {
                    Err("Window size must be between 8 and 15"@)
                } else {
                    Ok(
                        (
                            1,
                            GzipCompOpts {
                                compression_level: o.compression_level,
                                window_size: w as i16,
                                strategy: o.strategy,
                            },
                        ),
                    )
                },
            }
        }
    } else if args[0]@ == "-Xstrategy"@ {
        if args.len() < 2 {
            Err("Missing strategies"@)
        } else {
            match strategy_named(args[1]@) {
                None => Err("Unrecognized strategy: "@ + args[1]@),
                Some(s) => Ok(
                    (
                        1,
                        GzipCompOpts {
                            compression_level: o.compression_level,
                            window_size: o.window_size,
                            strategy: strategy_value(s) as i16,
                        },
                    ),
                ),
            }
        }
    } else {
        Ok((0, o))
    }
}

/// The name under which the options show a strategy number.
pub open spec fn strategy_label(v: i16) -> Seq<char> {
    if v == 0 {
        "default"@
    } else if v == 1 {
        "filtered"@
    } else if v == 2 {
        "huffman_only"@
    } else if v == 3 {
        "run_length_encoded"@
    } else if v == 4 {
        "fixed"@
    } else {
        "unknown"@
    }
}

/// The text that shows gzip options.
pub open spec fn gzip_options_text(o: GzipCompOpts) -> Seq<char> {
    "\tcompression-level "@ + signed_decimal(o.compression_level as int) + "\n\twindow-size "@
        + signed_decimal(o.window_size as int) + "\n\tStrategy selected: "@ + strategy_label(
        o.strategy,
    ) + "\n"@
}

/// The gzip compressor: its options and, once initialised, its stream.
pub struct GzipCompressor {
    pub options: GzipCompOpts,
    pub stream: Option<GzipStream>,
}

impl GzipCompressor {
    /// A compressor with the default options, not yet initialised.
    pub fn new() -> (r: Self)
        ensures
            r.options == (GzipCompOpts { compression_level: 9, window_size: 15, strategy: 0 }),
            r.stream is None,
    {
        GzipCompressor { options: GzipCompOpts::new(), stream: None }
    }

    /// A compressor with the given options, not yet initialised.
    pub fn with_options(options: GzipCompOpts) -> (r: Self)
        ensures
            r.options == options,
            r.stream is None,
    {
        GzipCompressor { options, stream: None }
    }

    /// Initialise the compressor with a stream for blocks of `block_size`
    /// bytes that uses the default strategy.
    pub fn init(&mut self, block_size: usize) -> (r: Result<(), GzipError>)
        ensures
            r is Ok,
            final(self).options == old(self).options,
            final(self).stream matches Some(s) && s.strategies@.len() == 1
                && s.strategies@[0].strategy == 0 && s.strategies@[0].length == 0
                && s.strategies@[0].buffer@.len() == 0,
    {
        let mut strategies: Vec<CompressionStrategy> = Vec::new();
        strategies.push(CompressionStrategy::Default);
        self.stream = Some(GzipStream::new(block_size, strategies));
        Ok(())
    }

    /// Read one gzip option from the start of `args`. Returns how many
    /// arguments the option took beyond its name: 0 for an option that is
    /// not a gzip option, 1 for one with a value.
    pub fn parse_options(&mut self, args: &[String]) -> (r: Result<usize, GzipError>)
        ensures
            match gzip_parse_spec(old(self).options, args@) {
                Ok((n, o)) => (r matches Ok(k) && k == n) && final(self).options == o,
                Err(m) => (r matches Err(GzipError::InvalidOptions(e)) && e@ == m)
                    && final(self).options == old(self).options,
            },
            final(self).stream == old(self).stream,
    {
        if args.len() == 0 {
            return Ok(0);
        }
        let a0 = args[0].as_str();
        if str_eq(a0, "-Xcompression-level") {
            if args.len() < 2 {
                return Err(GzipError::InvalidOptions(String::from_str("Missing compression level")));
            }
            match parse_decimal(args[1].as_str(), i32::MIN as i64, i32::MAX as i64) {
                Err(e) => {
                    return Err(
                        GzipError::InvalidOptions(concat("Invalid compression level: ", e.message())),
                    );
                },
                Ok(level) => {
                    if level < 1 || level > 9 {
                        return Err(
                            GzipError::InvalidOptions(
                                String::from_str("Compression level must be between 1 and 9"),
                            ),
                        );
                    }
                    self.options.compression_level = level as i32;
                    Ok(1)
                },
            }
        } else if str_eq(a0, "-Xwindow-size") {
            if args.len() < 2 {
                return Err(GzipError::InvalidOptions(String::from_str("Missing window size")));
            }
            match parse_decimal(args[1].as_str(), i32::MIN as i64, i32::MAX as i64) {
                Err(e) => {
                    return Err(
                        GzipError::InvalidOptions(concat("Invalid window size: ", e.message())),
                    );
                },
                Ok(size) => {
                    if size < 8 || size > 15 {
                        return Err(
                            GzipError::InvalidOptions(
                                String::from_str("Window size must be between 8 and 15"),
                            ),
                        );
                    }
                    self.options.window_size = size as i16;
                    Ok(1)
                },
            }
        } else if str_eq(a0, "-Xstrategy") {
            if args.len() < 2 {
                return Err(GzipError::InvalidOptions(String::from_str("Missing strategies")));
            }
            match strategy_from_name(args[1].as_str()) {
                None => Err(
                    GzipError::InvalidOptions(concat("Unrecognized strategy: ", args[1].as_str())),
                ),
                Some(s) => {
                    self.options.strategy = s.value() as i16;
                    Ok(1)
                },
            }
        } else {
            Ok(0)
        }
    }

    /// Compress `input` into the start of `output`; the number of bytes
    /// written. The compressor must have been initialised, and the
    /// compressed block must fit in `output`.
    pub fn compress(&mut self, input: &[u8], output: &mut [u8]) -> (r: Result<usize, GzipError>)
        requires
            0 <= old(self).options.compression_level <= 10,
        ensures
            *final(self) == *old(self),
            old(self).stream is None ==> (r matches Err(GzipError::CompressionError(m)) && m@
                == "Compressor not initialized"@ && final(output)@ == old(output)@),
            r matches Ok(n) ==> ({
                let c = deflate_stream(input@, old(self).options.compression_level as u32);
                &&& old(self).stream is Some
                &&& n == c.len()
                &&& final(output)@ == c + old(output)@.skip(n as int)
                &&& inflate_stream(c) == Some(input@)
            }),
            r matches Err(GzipError::BufferOverflow) ==> deflate_stream(
                input@,
                old(self).options.compression_level as u32,
            ).len() > old(output)@.len() && final(output)@ == old(output)@,
            old(self).stream is Some && deflate_stream(
                input@,
                old(self).options.compression_level as u32,
            ).len() > old(output)@.len() ==> r is Err && final(output)@ == old(output)@,
            old(self).stream is Some && deflate_stream(
                input@,
                old(self).options.compression_level as u32,
            ).len() <= old(output)@.len() ==> r is Ok,
    {
        if self.stream.is_none() {
            return Err(GzipError::CompressionError(String::from_str("Compressor not initialized")));
        }
        match deflate_block(input, self.options.compression_level as u32) {
            CodecOutcome::WriteFailed(e) => Err(GzipError::IOError(e)),
            CodecOutcome::FinishFailed(e) => {
                let t = io_error_text(&e);
                Err(
                    GzipError::CompressionError(
                        concat("Failed to finish compression: ", t.as_str()),
                    ),
                )
            },
            CodecOutcome::Done(compressed) => {
                if compressed.len() > output.len() {
                    return Err(GzipError::BufferOverflow);
                }
                copy_into(output, compressed.as_slice());
                Ok(compressed.len())
            },
        }
    }

    /// Decompress `input` into the start of `output`; the number of bytes
    /// written. A block this compressor wrote decompresses to the data it
    /// was written from, when that fits in `output`.
    pub fn decompress(&self, input: &[u8], output: &mut [u8]) -> (r: Result<usize, GzipError>)
        ensures
            match inflate_stream(input@) {
                Some(d) => if d.len() <= old(output)@.len() {
                    r == Ok::<usize, GzipError>(d.len() as usize) && final(output)@ == d + old(output)@.skip(d.len() as int)
                } else {
                    (r matches Err(GzipError::BufferOverflow)) && final(output)@ == old(output)@
                },
                None => (r matches Err(GzipError::IOError(_)) || r matches Err(
                    GzipError::DecompressionError(_),
                )) && final(output)@ == old(output)@,
            },
    {
        match inflate_block(input) {
            CodecOutcome::WriteFailed(e) => Err(GzipError::IOError(e)),
            CodecOutcome::FinishFailed(e) => {
                let t = io_error_text(&e);
                Err(
                    GzipError::DecompressionError(
                        concat("Failed to finish decompression: ", t.as_str()),
                    ),
                )
            },
            CodecOutcome::Done(decompressed) => {
                if decompressed.len() > output.len() {
                    return Err(GzipError::BufferOverflow);
                }
                copy_into(output, decompressed.as_slice());
                Ok(decompressed.len())
            },
        }
    }

    /// The text that shows the options of the compressor.
    pub fn display_options(&self) -> (r: String)
        ensures
            r@ == gzip_options_text(self.options),
    {
        let mut r = String::from_str("\tcompression-level ");
        let l = i64_to_decimal(self.options.compression_level as i64);
        push_str(&mut r, l.as_str());
        push_str(&mut r, "\n\twindow-size ");
        let w = i64_to_decimal(self.options.window_size as i64);
        push_str(&mut r, w.as_str());
        push_str(&mut r, "\n\tStrategy selected: ");
        let label = if self.options.strategy == 0 {
            "default"
        } else if self.options.strategy == 1 {
            "filtered"
        } else if self.options.strategy == 2 {
            "huffman_only"
        } else if self.options.strategy == 3 {
            "run_length_encoded"
        } else if self.options.strategy == 4 {
            "fixed"
        } else {
            "unknown"
        };
        push_str(&mut r, label);
        push_str(&mut r, "\n");
        r
    }
}

} // verus!
