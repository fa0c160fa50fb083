pub mod action;
pub mod action_eval;
pub mod action_impl;
pub mod allocation;
pub mod atomic_swap;
pub mod caches_queues_lists;
pub mod compat;
pub mod compressor;
pub mod date;
pub mod endian;
pub mod fnmatch;
pub mod fragments;
pub mod fs;
pub mod gzip;
pub mod help;
pub mod info;
pub mod limit;
pub mod lz4;
pub mod lzma;
pub mod lzma_xz;
pub mod lzo;
pub mod memory;
pub mod merge_sort;
pub mod processors;
pub mod mksquashfs;
pub mod pager;
pub mod progress;
pub mod read;
pub mod pseudo;
pub mod read_queue;
pub mod reader;
pub mod readahead;
pub mod restore;
pub mod seq_queue;
pub mod signals;
pub mod sort;
pub mod swap;

use vstd::prelude::*;
use crate::error::SquashError;
use crate::squashfs_tools::compressor::{CompressionType as CompressorKind, DefaultCompressor};
use crate::squashfs_tools::gzip::GzipCompressor;
use crate::squashfs_tools::lz4::Lz4Compressor;
use crate::squashfs_tools::lzma::LzmaCompressor;
use crate::squashfs_tools::lzo::{lzo_max_output, LzoCompressor};

verus! {

/// Magic number of a SquashFS super block.
pub const SQUASHFS_MAGIC: u32 = 0x73717368;
/// Where a SquashFS image starts: its magic number.
pub const SQUASHFS_START: u32 = 0x73717368;
/// Magic number of a SquashFS super block written in the other byte order.
pub const SQUASHFS_MAGIC_SWAP: u32 = 0x68737173;

/// SquashFS file system versions.
#[derive(Debug, Clone, Copy, PartialEq, Eq, Structural)]
pub enum SquashFsVersion {
    V1_0,
    V2_0,
    V3_0,
    V4_0,
}

/// SquashFS compression types.
#[derive(Debug, Clone, Copy, PartialEq, Eq, Structural)]
pub enum CompressionType {
    NoCompression,
    Gzip,
    Lzma,
    Lzo,
    Xz,
    Lz4,
    Zstd,
}

/// Options of a SquashFS file system.
#[derive(Debug, Clone, Copy, PartialEq, Eq, Structural)]
pub struct SquashFsOptions {
    pub block_size: usize,
    pub compression_type: CompressionType,
    pub version: SquashFsVersion,
    pub use_xattrs: bool,
    pub use_fragments: bool,
    pub use_export_table: bool,
    pub use_original_inode: bool,
}

/// The default options: 128 KiB blocks, gzip, version 4.0, extended
/// attributes and fragments, no export table, new inode numbers.
pub open spec fn default_options() -> SquashFsOptions {
    SquashFsOptions {
        block_size: 131072,
        compression_type: CompressionType::Gzip,
        version: SquashFsVersion::V4_0,
        use_xattrs: true,
        use_fragments: true,
        use_export_table: false,
        use_original_inode: false,
    }
}

impl Default for SquashFsOptions {
    fn default() -> (r: Self)
        ensures
            r == default_options(),
    {
        SquashFsOptions {
            block_size: 131072,
            compression_type: CompressionType::Gzip,
            version: SquashFsVersion::V4_0,
            use_xattrs: true,
            use_fragments: true,
            use_export_table: false,
            use_original_inode: false,
        }
    }
}

/// Builds the options of a SquashFS file system step by step.
pub struct SquashFsBuilder {
    pub options: SquashFsOptions,
}

impl SquashFsBuilder {
    /// A builder that starts from the default options.
    pub fn new() -> (r: Self)
        ensures
            r.options == default_options(),
    {
        SquashFsBuilder { options: SquashFsOptions::default() }
    }

    /// Set the block size.
    pub fn block_size(self, size: usize) -> (r: Self)
        ensures
            r.options == (SquashFsOptions { block_size: size, ..self.options }),
    {
        let mut b = self;
        b.options.block_size = size;
        b
    }

    /// Set the compression type.
    pub fn compression_type(self, compression: CompressionType) -> (r: Self)
        ensures
            r.options == (SquashFsOptions { compression_type: compression, ..self.options }),
    {
        let mut b = self;
        b.options.compression_type = compression;
        b
    }

    /// Set the file system version.
    pub fn version(self, version: SquashFsVersion) -> (r: Self)
        ensures
            r.options == (SquashFsOptions { version, ..self.options }),
    {
        let mut b = self;
        b.options.version = version;
        b
    }

    /// Turn extended attributes on or off.
    pub fn use_xattrs(self, use_xattrs: bool) -> (r: Self)
        ensures
            r.options == (SquashFsOptions { use_xattrs, ..self.options }),
    {
        let mut b = self;
        b.options.use_xattrs = use_xattrs;
        b
    }

    /// Turn fragments on or off.
    pub fn use_fragments(self, use_fragments: bool) -> (r: Self)
        ensures
            r.options == (SquashFsOptions { use_fragments, ..self.options }),
    {
        let mut b = self;
        b.options.use_fragments = use_fragments;
        b
    }

    /// Turn the export table on or off.
    pub fn use_export_table(self, use_export_table: bool) -> (r: Self)
        ensures
            r.options == (SquashFsOptions { use_export_table, ..self.options }),
    {
        let mut b = self;
        b.options.use_export_table = use_export_table;
        b
    }

    /// Keep or renumber the original inode numbers.
    pub fn use_original_inode(self, use_original_inode: bool) -> (r: Self)
        ensures
            r.options == (SquashFsOptions { use_original_inode, ..self.options }),
    {
        let mut b = self;
        b.options.use_original_inode = use_original_inode;
        b
    }

    /// The file system with the options built so far.
    pub fn build(self) -> (r: Result<SquashFs, SquashError>)
        requires
            lzo_max_output(self.options.block_size) <= usize::MAX,
        ensures
            r matches Ok(fs) && fs.options == self.options && compressor_fits(
                fs.compressor,
                self.options.compression_type,
            ),
    {
        SquashFs::new(self.options)
    }
}

/// A compressor that stores data as it is.
pub struct NoCompressor;

/// Copy `src` into the start of `dest`.
fn copy_prefix(dest: &mut [u8], src: &[u8])
    requires
        src@.len() <= old(dest)@.len(),
    ensures
        final(dest)@ == src@ + old(dest)@.skip(src@.len() as int),
{
    let ghost d0 = dest@;
    let mut i: usize = 0;
    while i < src.len()
        invariant
            src@.len() <= d0.len(),
            dest@.len() == d0.len(),
            i <= src@.len(),
            forall|k: int| 0 <= k < i ==> #[trigger] dest@[k] == src@[k],
            forall|k: int| i <= k < d0.len() ==> #[trigger] dest@[k] == d0[k],
        decreases src@.len() - i,
    {
        dest[i] = src[i];
        i = i + 1;
    }
    assert(dest@ =~= src@ + d0.skip(src@.len() as int));
}

/// Whether `r` is `Ok(n)` with the data copied to the start of `out`, or
/// the given error when it does not fit, leaving `out` as it was.
pub open spec fn stored_copy(
    r: Result<usize, crate::squashfs_tools::compressor::CompressorError>,
    input: Seq<u8>,
    old_out: Seq<u8>,
    out: Seq<u8>,
    compressing: bool,
) -> bool {
    if input.len() <= old_out.len() {
        r matches Ok(n) && n == input.len() && out == input + old_out.skip(input.len() as int)
    } else {
        out == old_out && if compressing {
            r matches Err(crate::squashfs_tools::compressor::CompressorError::CompressionError(m))
                && m@ == "Output buffer too small"@
        } else {
            r matches Err(crate::squashfs_tools::compressor::CompressorError::DecompressionError(m))
                && m@ == "Output buffer too small"@
        }
    }
}

impl NoCompressor {
    /// Store `input` as it is at the start of `output`.
    pub fn compress(&self, input: &[u8], output: &mut [u8]) -> (r: Result<
        usize,
        crate::squashfs_tools::compressor::CompressorError,
    >)
        ensures
            stored_copy(r, input@, old(output)@, final(output)@, true),
    {
        if output.len() < input.len() {
            return Err(
                crate::squashfs_tools::compressor::CompressorError::CompressionError(
                    String::from_str("Output buffer too small"),
                ),
            );
        }
        copy_prefix(output, input);
        Ok(input.len())
    }

    /// Give back data stored as it is, at the start of `output`.
    pub fn decompress(&self, input: &[u8], output: &mut [u8]) -> (r: Result<
        usize,
        crate::squashfs_tools::compressor::CompressorError,
    >)
        ensures
            stored_copy(r, input@, old(output)@, final(output)@, false),
    {
        if output.len() < input.len() {
            return Err(
                crate::squashfs_tools::compressor::CompressorError::DecompressionError(
                    String::from_str("Output buffer too small"),
                ),
            );
        }
        copy_prefix(output, input);
        Ok(input.len())
    }

    /// The name of the compressor.
    pub fn name(&self) -> (r: &'static str)
        ensures
            r@ == "none"@,
    {
        "none"
    }

    /// The compressor can always be used.
    pub fn supported(&self) -> (r: bool)
        ensures
            r,
    {
        true
    }
}

/// The compressor of a file system.
pub enum SquashFsCompressor {
    Uncompressed(NoCompressor),
    Gzip(GzipCompressor),
    Lzma(LzmaCompressor),
    Lzo(LzoCompressor),
    Lz4(Lz4Compressor),
    Other(DefaultCompressor),
}

/// Whether `c` is the compressor that a file system of compression type
/// `t` gets: a fresh one of that type where the library has one, else the
/// default compressor of that type.
pub open spec fn compressor_fits(c: SquashFsCompressor, t: CompressionType) -> bool {
    match t {
        CompressionType::NoCompression => c is Uncompressed,
        CompressionType::Gzip => c matches SquashFsCompressor::Gzip(g) && g.stream is None
            && g.options.compression_level == 9,
        CompressionType::Lzma => c matches SquashFsCompressor::Lzma(l) && l.level == 5,
        CompressionType::Lzo => c is Lzo,
        CompressionType::Lz4 => c matches SquashFsCompressor::Lz4(l) && !l.hc,
        CompressionType::Xz => c matches SquashFsCompressor::Other(d) && d.compression_type
            == CompressorKind::Xz,
        CompressionType::Zstd => c matches SquashFsCompressor::Other(d) && d.compression_type
            == CompressorKind::Zstd,
    }
}

/// A SquashFS file system: its options and its compressor.
pub struct SquashFs {
    pub options: SquashFsOptions,
    pub compressor: SquashFsCompressor,
}

impl SquashFs {
    /// A file system with the given options and the compressor of its
    /// compression type.
    pub fn new(options: SquashFsOptions) -> (r: Result<Self, SquashError>)
        requires
            lzo_max_output(options.block_size) <= usize::MAX,
        ensures
            r matches Ok(fs) && fs.options == options && compressor_fits(
                fs.compressor,
                options.compression_type,
            ),
    {
        let compressor = match options.compression_type {
            CompressionType::NoCompression => SquashFsCompressor::Uncompressed(NoCompressor),
            CompressionType::Gzip => SquashFsCompressor::Gzip(GzipCompressor::new()),
            CompressionType::Lzma => SquashFsCompressor::Lzma(LzmaCompressor::new()),
            CompressionType::Lzo => SquashFsCompressor::Lzo(LzoCompressor::new(options.block_size)),
            CompressionType::Xz => SquashFsCompressor::Other(DefaultCompressor::new(CompressorKind::Xz)),
            CompressionType::Lz4 => SquashFsCompressor::Lz4(Lz4Compressor::new()),
            CompressionType::Zstd => SquashFsCompressor::Other(
                DefaultCompressor::new(CompressorKind::Zstd),
            ),
        };
        Ok(SquashFs { options, compressor })
    }

    /// A builder that starts from the default options.
    pub fn builder() -> (r: SquashFsBuilder)
        ensures
            r.options == default_options(),
    {
        SquashFsBuilder::new()
    }

    /// The options of the file system.
    pub fn options(&self) -> (r: &SquashFsOptions)
        ensures
            *r == self.options,
    {
        &self.options
    }

    /// The compressor of the file system.
    pub fn compressor(&self) -> (r: &SquashFsCompressor)
        ensures
            *r == self.compressor,
    {
        &self.compressor
    }
}

} // verus!
