use vstd::prelude::*;
use crate::bytes::zeroed;
use crate::squashfs_tools::compressor::CompressorError;
use crate::text::{parse_decimal, parse_decimal_spec, push_str, str_eq};

verus! {

/// The LZO compression algorithms.
#[derive(Debug, Clone, Copy, PartialEq, Eq, Structural)]
pub enum LzoAlgorithm {
    Lzo1x1,
    Lzo1x11,
    Lzo1x12,
    Lzo1x15,
    Lzo1x999,
}

/// The name of an algorithm on the command line.
pub open spec fn lzo_algorithm_name(a: LzoAlgorithm) -> Seq<char> {
    match a {
        LzoAlgorithm::Lzo1x1 => "lzo1x_1"@,
        LzoAlgorithm::Lzo1x11 => "lzo1x_1_11"@,
        LzoAlgorithm::Lzo1x12 => "lzo1x_1_12"@,
        LzoAlgorithm::Lzo1x15 => "lzo1x_1_15"@,
        LzoAlgorithm::Lzo1x999 => "lzo1x_999"@,
    }
}

/// The algorithm with the given command-line name, if any.
pub open spec fn lzo_algorithm_named(s: Seq<char>) -> Option<LzoAlgorithm> {
    if s == "lzo1x_1"@ {
        Some(LzoAlgorithm::Lzo1x1)
    } else if s == "lzo1x_1_11"@ {
        Some(LzoAlgorithm::Lzo1x11)
    } else if s == "lzo1x_1_12"@ {
        Some(LzoAlgorithm::Lzo1x12)
    } else if s == "lzo1x_1_15"@ {
        Some(LzoAlgorithm::Lzo1x15)
    } else if s == "lzo1x_999"@ {
        Some(LzoAlgorithm::Lzo1x999)
    } else {
        None
    }
}

/// Bytes of work memory that liblzo asks for to compress with an
/// algorithm on a 64-bit machine (its `LZO1X_*_MEM_COMPRESS`).
pub open spec fn lzo_memory_size(a: LzoAlgorithm) -> usize {
    match a {
        LzoAlgorithm::Lzo1x1 => 131072,
        LzoAlgorithm::Lzo1x11 => 16384,
        LzoAlgorithm::Lzo1x12 => 32768,
        LzoAlgorithm::Lzo1x15 => 262144,
        LzoAlgorithm::Lzo1x999 => 458752,
    }
}

impl LzoAlgorithm {
    /// The name of the algorithm on the command line.
    pub fn name(&self) -> (r: &'static str)
        ensures
            r@ == lzo_algorithm_name(*self),
    {
        match self {
            LzoAlgorithm::Lzo1x1 => "lzo1x_1",
            LzoAlgorithm::Lzo1x11 => "lzo1x_1_11",
            LzoAlgorithm::Lzo1x12 => "lzo1x_1_12",
            LzoAlgorithm::Lzo1x15 => "lzo1x_1_15",
            LzoAlgorithm::Lzo1x999 => "lzo1x_999",
        }
    }

    /// Bytes of work memory that compression with the algorithm needs.
    pub fn memory_size(&self) -> (r: usize)
        ensures
            r == lzo_memory_size(*self),
    {
        match self {
            LzoAlgorithm::Lzo1x1 => 131072,
            LzoAlgorithm::Lzo1x11 => 16384,
            LzoAlgorithm::Lzo1x12 => 32768,
            LzoAlgorithm::Lzo1x15 => 262144,
            LzoAlgorithm::Lzo1x999 => 458752,
        }
    }
}

fn algorithm_from_name(s: &str) -> (r: Option<LzoAlgorithm>)
    ensures
        r == lzo_algorithm_named(s@),
{
    if str_eq(s, "lzo1x_1") {
        Some(LzoAlgorithm::Lzo1x1)
    } else if str_eq(s, "lzo1x_1_11") {
        Some(LzoAlgorithm::Lzo1x11)
    } else if str_eq(s, "lzo1x_1_12") {
        Some(LzoAlgorithm::Lzo1x12)
    } else if str_eq(s, "lzo1x_1_15") {
        Some(LzoAlgorithm::Lzo1x15)
    } else if str_eq(s, "lzo1x_999") {
        Some(LzoAlgorithm::Lzo1x999)
    } else {
        None
    }
}

/// Default compression level of the lzo1x_999 algorithm.
pub const SQUASHFS_LZO1X_999_COMP_DEFAULT: u32 = 8;

/// LZO compression options.
#[derive(Debug, Clone, Copy, PartialEq, Eq, Structural)]
pub struct LzoCompOpts {
    /// The compression algorithm.
    pub algorithm: LzoAlgorithm,
    /// Compression level, 1 to 9; it applies to lzo1x_999 only.
    pub compression_level: u32,
}

impl LzoCompOpts {
    /// The default options: lzo1x_999 at level 8.
    pub fn new() -> (r: Self)
        ensures
            r.algorithm == LzoAlgorithm::Lzo1x999,
            r.compression_level == SQUASHFS_LZO1X_999_COMP_DEFAULT,
    {
        LzoCompOpts { algorithm: LzoAlgorithm::Lzo1x999, compression_level: SQUASHFS_LZO1X_999_COMP_DEFAULT }
    }
}

/// The outcome of reading LZO options from `args` when the options are
/// `o`: the number of arguments consumed beyond the first and the new
/// options, or the message of the error.
pub open spec fn lzo_parse_spec(o: LzoCompOpts, args: Seq<String>) -> Result<(int, LzoCompOpts), Seq<char>> {
    if args.len() == 0 {
        Err("Missing option argument"@)
    } else if args[0]@ == "-Xalgorithm"@ {
        if args.len() < 2 {
            Err("Missing algorithm name"@)
        } else {
            match lzo_algorithm_named(args[1]@) {
                None => Err("Unrecognized algorithm"@),
                Some(a) => Ok((1, LzoCompOpts { algorithm: a, compression_level: o.compression_level })),
            }
        }
    } else if args[0]@ == "-Xcompression-level"@ {
        if args.len() < 2 {
            Err("Missing compression level"@)
        } else {
            match parse_decimal_spec(args[1]@, 0, u32::MAX as int) {
                Err(_) => Err("Invalid compression level"@),
                Ok(l) => if l < 1 || l > 9 {
                    Err("Compression level must be between 1 and 9"@)
                } else if o.algorithm != LzoAlgorithm::Lzo1x999 {
                    Err("Compression level only applies to lzo1x_999 algorithm"@)
                } else {
                    Ok((1, LzoCompOpts { algorithm: o.algorithm, compression_level: l as u32 }))
                },
            }
        }
    } else {
        Err("Unrecognized option"@)
    }
}

/// The usage text of the LZO options.
pub open spec fn lzo_usage_text() -> Seq<char> {
    "\t  -Xalgorithm <algorithm>\n"@ + "\t\tWhere <algorithm> is one of:\n"@ + "\t\t\t"@
        + "lzo1x_1"@ + "\n"@ + "\t\t\t"@ + "lzo1x_1_11"@ + "\n"@ + "\t\t\t"@ + "lzo1x_1_12"@
        + "\n"@ + "\t\t\t"@ + "lzo1x_1_15"@ + "\n"@ + "\t\t\t"@ + "lzo1x_999"@ + " (default)"@
        + "\n"@ + "\t  -Xcompression-level <compression-level>\n"@
        + "\t\t<compression-level> should be 1 .. 9 (default 8). Only applies to lzo1x_999 algorithm\n"@
}

/// Worst-case size of an LZO compressed block: the block, a sixteenth
/// more, and 67 bytes.
pub open spec fn lzo_max_output(block_size: usize) -> int {
    block_size + block_size / 16 + 64 + 3
}

/// What an LZO1X decoder (`lzo1x_decompress_safe`) writes when it decodes
/// the block `input` into a buffer of `room` bytes, or nothing where the
/// block is malformed or its contents do not fit.
pub uninterp spec fn lzo1x_decode(input: Seq<u8>, room: nat) -> Option<Seq<u8>>;

/// Decode the LZO1X block `input` into `output` with
/// `lzo::decompress_into`; its error is handed on as its text. The result
/// is named `lzo1x_decode`: the decoder writes its bytes one after the
/// other from the start of `output` and leaves the rest as it was. What a
/// failed run leaves in `output` is not stated.
#[verifier::external_body]
fn lzo_decode_into(input: &[u8], output: &mut [u8]) -> (r: Result<usize, String>)
    ensures
        final(output)@.len() == old(output)@.len(),
        match lzo1x_decode(input@, old(output)@.len() as nat) {
            Some(bytes) => r matches Ok(n) && n == bytes.len() && n <= old(output)@.len()
                && final(output)@ == bytes + old(output)@.skip(n as int),
            None => r is Err,
        },
{
    lzo::decompress_into(input, output).map_err(|e| format!("{}", e))
}

/// The LZO compressor: its options and its work and output buffers.
pub struct LzoCompressor {
    pub opts: LzoCompOpts,
    pub workspace: Vec<u8>,
    pub buffer: Vec<u8>,
}

impl LzoCompressor {
    /// A compressor with the default options for blocks of `block_size`
    /// bytes, with a work buffer of the algorithm's size and an output
    /// buffer large enough for the worst case.
    pub fn new(block_size: usize) -> (r: Self)
        requires
            lzo_max_output(block_size) <= usize::MAX,
        ensures
            r.opts == (LzoCompOpts { algorithm: LzoAlgorithm::Lzo1x999, compression_level: 8 }),
            r.workspace@.len() == lzo_memory_size(LzoAlgorithm::Lzo1x999),
            r.buffer@.len() == lzo_max_output(block_size),
    {
        let opts = LzoCompOpts::new();
        let workspace_size = opts.algorithm.memory_size();
        let buffer_size = block_size + (block_size / 16) + 64 + 3;
        LzoCompressor { opts, workspace: zeroed(workspace_size), buffer: zeroed(buffer_size) }
    }

    /// Read one LZO option from the start of `args`; the number of
    /// arguments it took beyond its name.
    pub fn parse_options(&mut self, args: &[String]) -> (r: Result<usize, String>)
        ensures
            match lzo_parse_spec(old(self).opts, args@) {
                Ok((n, o)) => (r matches Ok(k) && k == n) && final(self).opts == o,
                Err(m) => (r matches Err(e) && e@ == m) && final(self).opts == old(self).opts,
            },
            final(self).workspace == old(self).workspace,
            final(self).buffer == old(self).buffer,
    {
        if args.len() == 0 {
            return Err(String::from_str("Missing option argument"));
        }
        let a0 = args[0].as_str();
        if str_eq(a0, "-Xalgorithm") {
            if args.len() < 2 {
                return Err(String::from_str("Missing algorithm name"));
            }
            match algorithm_from_name(args[1].as_str()) {
                None => Err(String::from_str("Unrecognized algorithm")),
                Some(a) => {
                    self.opts.algorithm = a;
                    Ok(1)
                },
            }
        } else if str_eq(a0, "-Xcompression-level") {
            if args.len() < 2 {
                return Err(String::from_str("Missing compression level"));
            }
            match parse_decimal(args[1].as_str(), 0, u32::MAX as i64) {
                Err(_) => Err(String::from_str("Invalid compression level")),
                Ok(level) => {
                    if level < 1 || level > 9 {
                        return Err(String::from_str("Compression level must be between 1 and 9"));
                    }
                    if !matches!(self.opts.algorithm, LzoAlgorithm::Lzo1x999) {
                        return Err(
                            String::from_str("Compression level only applies to lzo1x_999 algorithm"),
                        );
                    }
                    self.opts.compression_level = level as u32;
                    Ok(1)
                },
            }
        } else {
            Err(String::from_str("Unrecognized option"))
        }
    }

    /// The usage text of the LZO options.
    pub fn display_usage(&self) -> (r: String)
        ensures
            r@ == lzo_usage_text(),
    {
        let mut r = String::from_str("\t  -Xalgorithm <algorithm>\n");
        push_str(&mut r, "\t\tWhere <algorithm> is one of:\n");
        push_str(&mut r, "\t\t\t");
        push_str(&mut r, "lzo1x_1");
        push_str(&mut r, "\n");
        push_str(&mut r, "\t\t\t");
        push_str(&mut r, "lzo1x_1_11");
        push_str(&mut r, "\n");
        push_str(&mut r, "\t\t\t");
        push_str(&mut r, "lzo1x_1_12");
        push_str(&mut r, "\n");
        push_str(&mut r, "\t\t\t");
        push_str(&mut r, "lzo1x_1_15");
        push_str(&mut r, "\n");
        push_str(&mut r, "\t\t\t");
        push_str(&mut r, "lzo1x_999");
        push_str(&mut r, " (default)");
        push_str(&mut r, "\n");
        push_str(&mut r, "\t  -Xcompression-level <compression-level>\n");
        push_str(
            &mut r,
            "\t\t<compression-level> should be 1 .. 9 (default 8). Only applies to lzo1x_999 algorithm\n",
        );
        r
    }

    /// Decode the LZO1X block `input` into `output`: the number of bytes
    /// decoded, or a decompression error. Every algorithm writes blocks the
    /// one LZO1X decoder reads.
    pub fn decompress(&self, input: &[u8], output: &mut [u8]) -> (r: Result<usize, CompressorError>)
        ensures
            final(output)@.len() == old(output)@.len(),
            match lzo1x_decode(input@, old(output)@.len() as nat) {
                Some(bytes) => r matches Ok(n) && n == bytes.len() && final(output)@ == bytes + old(
                    output,
                )@.skip(n as int),
                None => r matches Err(CompressorError::DecompressionError(_)),
            },
    {
        match lzo_decode_into(input, output) {
            Ok(n) => Ok(n),
            Err(m) => Err(CompressorError::DecompressionError(m)),
        }
    }

    /// The name of the compressor.
    pub fn name(&self) -> (r: &'static str)
        ensures
            r@ == "lzo"@,
    {
        "lzo"
    }

    /// LZO is supported.
    pub fn supported(&self) -> (r: bool)
        ensures
            r,
    {
        true
    }
}

} // verus!
