use libappimage::squashfs_tools::compressor::CompressionType as Kind;
use libappimage::squashfs_tools::endian::{
    get_byte_order, inswap_le16, inswap_le16_num, inswap_le32, inswap_le32_num, inswap_le64, inswap_le64_num,
    is_big_endian, is_little_endian, swap_le16, swap_le16_num, swap_le32, swap_le32_num, swap_le64, swap_le64_num,
    BYTE_ORDER_BE, BYTE_ORDER_LE,
};
use libappimage::squashfs_tools::fs::{SquashFsFlags, SquashFsSuperBlock};
use libappimage::squashfs_tools::gzip::{
    CompressionStrategy, GzipCompOpts, GzipCompressor, GZIP_DEFAULT_COMPRESSION_LEVEL, GZIP_DEFAULT_WINDOW_SIZE,
};
use libappimage::squashfs_tools::lz4::Lz4Compressor;
use libappimage::squashfs_tools::lzo::{LzoAlgorithm, LzoCompressor};
use libappimage::squashfs_tools::swap::{swap_slice, swap_slice_into, swap_value, swap_value_into, EndianSwap};
use libappimage::squashfs_tools::SQUASHFS_MAGIC;

#[test]
fn test_byte_order() {
    let byte_order = get_byte_order();
    assert!(byte_order == BYTE_ORDER_BE || byte_order == BYTE_ORDER_LE);
}

#[test]
fn test_endianness() {
    assert_ne!(is_big_endian(), is_little_endian());
}

#[test]
fn test_byte_order_consistency() {
    let byte_order = get_byte_order();
    assert_eq!(byte_order, if is_big_endian() { BYTE_ORDER_BE } else { BYTE_ORDER_LE });
}

#[test]
fn test_swap_le16() {
    let src = [0x12, 0x34];
    let mut dest = [0; 2];
    swap_le16(&src, &mut dest);
    assert_eq!(dest, [0x34, 0x12]);
}

#[test]
fn test_swap_le32() {
    let src = [0x12, 0x34, 0x56, 0x78];
    let mut dest = [0; 4];
    swap_le32(&src, &mut dest);
    assert_eq!(dest, [0x78, 0x56, 0x34, 0x12]);
}

#[test]
fn test_swap_le64() {
    let src = [0x12, 0x34, 0x56, 0x78, 0x9A, 0xBC, 0xDE, 0xF0];
    let mut dest = [0; 8];
    swap_le64(&src, &mut dest);
    assert_eq!(dest, [0xF0, 0xDE, 0xBC, 0x9A, 0x78, 0x56, 0x34, 0x12]);
}

#[test]
fn test_inswap_le16() {
    assert_eq!(inswap_le16(0x1234), 0x3412);
}

#[test]
fn test_inswap_le32() {
    assert_eq!(inswap_le32(0x12345678), 0x78563412);
}

#[test]
fn test_inswap_le64() {
    assert_eq!(inswap_le64(0x1234567890ABCDEF), 0xEFCDAB9078563412u64 as i64);
}

#[test]
fn test_swap_le16_num() {
    let src = [0x12, 0x34, 0x56, 0x78];
    let mut dest = [0; 4];
    swap_le16_num(&src, &mut dest, 2);
    assert_eq!(dest, [0x34, 0x12, 0x78, 0x56]);
}

#[test]
fn test_swap_le32_num() {
    let src = [0x12, 0x34, 0x56, 0x78, 0x9A, 0xBC, 0xDE, 0xF0];
    let mut dest = [0; 8];
    swap_le32_num(&src, &mut dest, 2);
    assert_eq!(dest, [0x78, 0x56, 0x34, 0x12, 0xF0, 0xDE, 0xBC, 0x9A]);
}

#[test]
fn test_swap_le64_num() {
    let src = [
        0x12, 0x34, 0x56, 0x78, 0x9A, 0xBC, 0xDE, 0xF0, 0x11, 0x22, 0x33, 0x44, 0x55, 0x66, 0x77, 0x88,
    ];
    let mut dest = [0; 16];
    swap_le64_num(&src, &mut dest, 2);
    assert_eq!(
        dest,
        [0xF0, 0xDE, 0xBC, 0x9A, 0x78, 0x56, 0x34, 0x12, 0x88, 0x77, 0x66, 0x55, 0x44, 0x33, 0x22, 0x11]
    );
}

#[test]
fn test_inswap_le16_num() {
    let mut slice = [0x1234, 0x5678];
    inswap_le16_num(&mut slice);
    assert_eq!(slice, [0x3412, 0x7856]);
}

#[test]
fn test_inswap_le32_num() {
    let mut slice = [0x12345678, 0x9ABCDEF0];
    inswap_le32_num(&mut slice);
    assert_eq!(slice, [0x78563412, 0xF0DEBC9A]);
}

#[test]
fn test_inswap_le64_num() {
    let mut slice = [0x1234567890ABCDEF, 0x1122334455667788];
    inswap_le64_num(&mut slice);
    assert_eq!(slice, [0xEFCDAB9078563412u64 as i64, 0x8877665544332211u64 as i64]);
}

#[test]
fn swapping_twice_gives_the_value_back() {
    for v in [0u32, 1, 0x12345678, u32::MAX, 0xdeadbeef] {
        assert_eq!(inswap_le32(inswap_le32(v)), v);
    }
    for v in [0u16, 0x1234, u16::MAX] {
        assert_eq!(inswap_le16(inswap_le16(v)), v);
    }
}

#[test]
fn test_basic_type_swapping() {
    let value: u16 = 0x1234;
    assert_eq!(value.swap(), if is_big_endian() { 0x3412 } else { 0x1234 });

    let value: u32 = 0x12345678;
    assert_eq!(value.swap(), if is_big_endian() { 0x78563412 } else { 0x12345678 });

    let value: i64 = 0x1234567890ABCDEF;
    assert_eq!(value.swap(), if is_big_endian() { 0xEFCDAB9078563412u64 as i64 } else { 0x1234567890ABCDEF });
}

#[test]
fn test_slice_swapping() {
    let slice: &[u16] = &[0x1234, 0x5678];
    let swapped = u16::swap_slice(slice);
    assert_eq!(swapped, if is_big_endian() { vec![0x3412, 0x7856] } else { vec![0x1234, 0x5678] });

    let mut slice = vec![0x1234u16, 0x5678];
    u16::swap_slice_in_place(&mut slice);
    assert_eq!(slice, if is_big_endian() { vec![0x3412, 0x7856] } else { vec![0x1234, 0x5678] });
}

#[test]
fn test_superblock_swapping() {
    let mut superblock = SquashFsSuperBlock {
        s_magic: SQUASHFS_MAGIC,
        inodes: 100,
        mkfs_time: 1234567890,
        block_size: 4096,
        fragments: 10,
        compression: Kind::Gzip.id() as u16,
        block_log: 12,
        flags: SquashFsFlags::new(0),
        no_ids: 1,
        major: 4,
        minor: 0,
        root_inode: 1,
        bytes_used: 1000000,
        id_table_start: 1000,
        xattr_id_table_start: 0,
        inode_table_start: 2000,
        directory_table_start: 3000,
        fragment_table_start: 4000,
        lookup_table_start: 0,
    };

    let swapped = superblock.swap();
    assert_eq!(swapped.s_magic, SQUASHFS_MAGIC);
    assert_eq!(swapped.inodes, if is_big_endian() { 100u32.swap() } else { 100 });
    assert_eq!(swapped.mkfs_time, if is_big_endian() { 1234567890u32.swap() } else { 1234567890 });

    superblock.swap_in_place();
    assert_eq!(superblock.inodes, if is_big_endian() { 100u32.swap() } else { 100 });
    assert_eq!(superblock.mkfs_time, if is_big_endian() { 1234567890u32.swap() } else { 1234567890 });
}

#[test]
fn swap_test_helper_functions() {
    let value: u16 = 0x1234;
    assert_eq!(swap_value(value), if is_big_endian() { 0x3412 } else { 0x1234 });

    let mut value: u16 = 0x1234;
    swap_value_into(&mut value);
    assert_eq!(value, if is_big_endian() { 0x3412 } else { 0x1234 });

    let slice: &[u16] = &[0x1234, 0x5678];
    assert_eq!(swap_slice(slice), if is_big_endian() { vec![0x3412, 0x7856] } else { vec![0x1234, 0x5678] });

    let mut slice = vec![0x1234u16, 0x5678];
    swap_slice_into(&mut slice);
    assert_eq!(slice, if is_big_endian() { vec![0x3412, 0x7856] } else { vec![0x1234, 0x5678] });
}

#[test]
fn swap_for_big_endian_reverses() {
    assert_eq!(0x1234u16.swap_for(true), 0x3412);
    assert_eq!(0x1234u16.swap_for(false), 0x1234);
    assert_eq!(0x12345678u32.swap_for(true), 0x78563412);
}

#[test]
fn test_compression_decompression() {
    let mut compressor = GzipCompressor::new();
    compressor.init(1024).unwrap();

    let input = b"Hello, World!";
    let mut compressed = vec![0; input.len() * 2];
    let mut decompressed = vec![0; input.len()];

    let compressed_len = compressor.compress(input, &mut compressed).unwrap();
    let decompressed_len = compressor.decompress(&compressed[..compressed_len], &mut decompressed).unwrap();

    assert_eq!(decompressed_len, input.len());
    assert_eq!(&decompressed[..decompressed_len], input);
}

#[test]
fn test_options_parsing() {
    let mut compressor = GzipCompressor::new();

    let args = vec![
        "-Xcompression-level".to_string(),
        "9".to_string(),
        "-Xwindow-size".to_string(),
        "15".to_string(),
        "-Xstrategy".to_string(),
        "filtered".to_string(),
    ];

    let mut i = 0;
    while i < args.len() {
        let consumed = compressor.parse_options(&args[i..]).unwrap();
        i += consumed + 1;
    }

    assert_eq!(compressor.options.compression_level, 9);
    assert_eq!(compressor.options.window_size, 15);
    assert_eq!(compressor.options.strategy, CompressionStrategy::Filtered.value() as i16);
}

#[test]
fn test_invalid_options() {
    let mut compressor = GzipCompressor::new();

    assert!(compressor.parse_options(&["-Xcompression-level".to_string()]).is_err());
    assert!(compressor.parse_options(&["-Xcompression-level".to_string(), "10".to_string()]).is_err());
    assert!(compressor.parse_options(&["-Xwindow-size".to_string(), "16".to_string()]).is_err());
    assert!(compressor.parse_options(&["-Xstrategy".to_string(), "invalid".to_string()]).is_err());
}

#[test]
fn test_endianness_swapping() {
    let mut opts = GzipCompOpts::new();
    opts.swap_endianness();

    if is_big_endian() {
        assert_eq!(opts.compression_level, inswap_le32(GZIP_DEFAULT_COMPRESSION_LEVEL as u32) as i32);
        assert_eq!(opts.window_size, inswap_le16(GZIP_DEFAULT_WINDOW_SIZE as u16) as i16);
        assert_eq!(opts.strategy, inswap_le16(CompressionStrategy::Default.value() as u16) as i16);
    } else {
        assert_eq!(opts.compression_level, GZIP_DEFAULT_COMPRESSION_LEVEL);
        assert_eq!(opts.window_size, GZIP_DEFAULT_WINDOW_SIZE as i16);
        assert_eq!(opts.strategy, CompressionStrategy::Default.value() as i16);
    }
}

#[test]
fn gzip_compress_changes_the_bytes() {
    let mut compressor = GzipCompressor::new();
    compressor.init(1024).unwrap();
    let input = vec![b'a'; 200];
    let mut compressed = vec![0; 200];
    let n = compressor.compress(&input, &mut compressed).unwrap();
    assert!(n > 0 && n < 200);
    assert_ne!(&compressed[..n], &input[..n]);
}

#[test]
fn test_lz4_options() {
    let mut compressor = Lz4Compressor::new();
    assert_eq!(compressor.parse_options(&["-Xhc".to_string()]).unwrap(), 0);
    assert!(compressor.hc);
    assert!(compressor.parse_options(&["-Xinvalid".to_string()]).is_err());
}

#[test]
fn test_lz4_compression() {
    let compressor = Lz4Compressor::new();
    let input = b"Hello, World!";
    let mut output = vec![0; input.len() * 2];

    let compressed_size = compressor.compress(input, &mut output).unwrap();
    assert!(compressed_size > 0);

    let mut decompressed = vec![0; input.len()];
    let decompressed_size = compressor.decompress(&output[..compressed_size], &mut decompressed).unwrap();
    assert_eq!(decompressed_size, input.len());
    assert_eq!(&decompressed[..decompressed_size], input);
}

#[test]
fn lz4_block_bytes_and_errors() {
    let compressor = Lz4Compressor::new();
    let input = b"abcabcabcabcabcabcabcabcabcabcabcabc";
    let mut output = vec![0u8; 64];
    let n = compressor.compress(input, &mut output).unwrap();
    // A repetitive input gives a block shorter than itself, not a copy.
    assert!(n < input.len());
    assert_ne!(&output[..n], &input[..n]);
    let mut back = vec![0u8; 64];
    let m = compressor.decompress(&output[..n], &mut back).unwrap();
    assert_eq!(&back[..m], &input[..]);

    // No room for the block.
    let mut tiny = vec![0u8; 1];
    assert!(matches!(
        compressor.compress(b"Hello, World!", &mut tiny),
        Err(libappimage::squashfs_tools::compressor::CompressorError::CompressionError(_))
    ));
    // A block whose contents do not fit.
    let mut small = vec![0u8; 4];
    assert!(matches!(
        compressor.decompress(&output[..n], &mut small),
        Err(libappimage::squashfs_tools::compressor::CompressorError::DecompressionError(_))
    ));
    assert_eq!(compressor.name(), "lz4");
    assert!(compressor.supported());
}

#[test]
fn lzo_block_decoding() {
    let compressor = LzoCompressor::new(1024);
    // "hello, lzo world!" as liblzo2's lzo1x_1 writes it: one run of 17
    // literals, then the end marker.
    let mut block = vec![34u8];
    block.extend_from_slice(b"hello, lzo world!");
    block.extend_from_slice(&[17, 0, 0]);
    let mut out = vec![0xAAu8; 20];
    let n = compressor.decompress(&block, &mut out).unwrap();
    assert_eq!(n, 17);
    assert_eq!(&out[..n], b"hello, lzo world!");
    assert_eq!(&out[n..], &[0xAA, 0xAA, 0xAA]);

    let mut small = vec![0u8; 5];
    assert!(matches!(
        compressor.decompress(&block, &mut small),
        Err(libappimage::squashfs_tools::compressor::CompressorError::DecompressionError(_))
    ));
    assert!(matches!(
        compressor.decompress(&block[..10], &mut out),
        Err(libappimage::squashfs_tools::compressor::CompressorError::DecompressionError(_))
    ));
    assert_eq!(compressor.name(), "lzo");
    assert!(compressor.supported());
}

#[test]
fn test_lzo_options() {
    let mut compressor = LzoCompressor::new(1024);

    assert_eq!(compressor.parse_options(&["-Xalgorithm".to_string(), "lzo1x_999".to_string()]).unwrap(), 1);
    assert_eq!(compressor.opts.algorithm, LzoAlgorithm::Lzo1x999);

    assert_eq!(compressor.parse_options(&["-Xcompression-level".to_string(), "5".to_string()]).unwrap(), 1);
    assert_eq!(compressor.opts.compression_level, 5);

    assert!(compressor.parse_options(&["-Xalgorithm".to_string()]).is_err());
    assert!(compressor.parse_options(&["-Xcompression-level".to_string()]).is_err());
    assert!(compressor.parse_options(&["-Xcompression-level".to_string(), "10".to_string()]).is_err());
}

use libappimage::squashfs_tools::compressor::CompressorError;
use libappimage::squashfs_tools::lzma::LzmaCompressor;
use libappimage::squashfs_tools::lzma_xz::LzmaXzCompressor;

#[test]
fn lzma_block_round_trip_with_room() {
    let compressor = LzmaCompressor::new();
    let input = b"Hello, World! Hello, World! Hello, World!";
    let mut output = vec![0u8; 512];
    let n = compressor.compress(input, &mut output).unwrap();
    assert!(n > 13);
    assert_eq!(&output[5..13], &[input.len() as u8, 0, 0, 0, 0, 0, 0, 0]);
    let mut decompressed = vec![0u8; input.len()];
    let m = compressor.decompress(&output[..n], &mut decompressed).unwrap();
    assert_eq!(m, input.len());
    assert_eq!(&decompressed[..], &input[..]);
}

#[test]
fn lzma_errors() {
    let compressor = LzmaCompressor::new();
    let mut small = vec![0u8; 12];
    assert!(matches!(compressor.compress(b"x", &mut small), Err(CompressorError::CompressionError(_))));
    let mut out = vec![0u8; 4];
    assert!(matches!(compressor.decompress(&[0u8; 5], &mut out), Err(CompressorError::DecompressionError(_))));
    let mut header = [0u8; 13];
    header[5] = 200;
    assert!(matches!(compressor.decompress(&header, &mut out), Err(CompressorError::DecompressionError(_))));
    assert_eq!(compressor.name(), "lzma");
}

#[test]
fn lzma_xz_header_and_errors() {
    let compressor = LzmaXzCompressor::new();
    let input = b"Test data";
    // liblzma's encoder writes its own 13-byte header first, which does not
    // fit in the 5 bytes that an 18-byte buffer leaves: the output fills up.
    let mut tight = vec![0u8; input.len() * 2];
    assert_eq!(compressor.compress(input, &mut tight).unwrap(), 0);
    let mut output = vec![0u8; 1024];
    let n = compressor.compress(input, &mut output).unwrap();
    assert!(n >= 13);
    let size = (output[5] as u64) | ((output[6] as u64) << 8) | ((output[7] as u64) << 16) | ((output[8] as u64) << 24);
    assert_eq!(size, input.len() as u64);

    let mut small = vec![0u8; 12];
    assert!(matches!(compressor.compress(input, &mut small), Err(CompressorError::CompressionError(_))));
    let mut out = vec![0u8; 4];
    assert!(matches!(compressor.decompress(&[0u8; 5], &mut out), Err(CompressorError::DecompressionError(_))));
}

use libappimage::error::SquashError;
use libappimage::squashfs_tools::read::{read_block, read_super};

fn super_block_bytes(magic: u32, major: u16, minor: u16) -> Vec<u8> {
    let mut d = vec![0u8; 96];
    d[0..4].copy_from_slice(&magic.to_le_bytes());
    d[4..8].copy_from_slice(&7u32.to_le_bytes());
    d[12..16].copy_from_slice(&131072u32.to_le_bytes());
    d[20..22].copy_from_slice(&1u16.to_le_bytes());
    d[24..26].copy_from_slice(&0x0201u16.to_le_bytes());
    d[28..30].copy_from_slice(&major.to_le_bytes());
    d[30..32].copy_from_slice(&minor.to_le_bytes());
    d[40..48].copy_from_slice(&4096u64.to_le_bytes());
    d
}

#[test]
fn superblock_is_read_and_checked() {
    let sb = read_super(&super_block_bytes(SQUASHFS_MAGIC, 4, 0)).unwrap();
    assert_eq!(sb.inodes, 7);
    assert_eq!(sb.block_size, 131072);
    assert_eq!(sb.compression, 1);
    assert_eq!(sb.flags.bits(), 0x0201);
    assert_eq!(sb.bytes_used, 4096);
    assert!(matches!(read_super(&super_block_bytes(0x68737173, 4, 0)), Err(SquashError::UnsupportedBigEndian)));
    assert!(matches!(read_super(&super_block_bytes(1, 4, 0)), Err(SquashError::InvalidMagic)));
    assert!(matches!(
        read_super(&super_block_bytes(SQUASHFS_MAGIC, 3, 1)),
        Err(SquashError::UnsupportedVersion { major: 3, minor: 1 })
    ));
    assert!(matches!(read_super(&[0u8; 10]), Err(SquashError::Io(_))));
}

#[test]
fn metadata_blocks_are_read() {
    let mut data = vec![0xaa, 0xbb];
    data.extend_from_slice(&(0x8000u16 | 3).to_le_bytes());
    data.extend_from_slice(&[1, 2, 3, 4]);
    let mut block = [9u8; 5];
    let (n, next) = read_block(&data, 2, None, &mut block).unwrap();
    assert_eq!((n, next), (3, 7));
    assert_eq!(block, [1, 2, 3, 9, 9]);
    assert!(matches!(read_block(&data, 2, Some(2), &mut block), Err(SquashError::InvalidBlockSize)));
    assert!(matches!(read_block(&data, 7, None, &mut block), Err(SquashError::Io(_))));
}
