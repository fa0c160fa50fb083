use libappimage::appimage::AppImage;
use libappimage::appimage_handler::AppImageHandler;
use libappimage::config::{features, version};
use libappimage::error::{
    AppImageError, DesktopEntryEditError, DesktopIntegrationError, IntoAppImageIoError, IntoAppImageStringError,
};
use libappimage::error_code::ErrorCode;
use libappimage::format::{AppImageFormat, FORMAT_HEADER_SIZE};
use libappimage::handlers::{Type1Handler, Type2Handler};
use libappimage::payload::PayloadIStream;
use libappimage::payload_iterator::PayloadIterator;
use libappimage::payload_types::PayloadEntryType;
use libappimage::progress::{DefaultProgressBar, ProgressBar};

#[test]
fn test_version_format() {
    assert_eq!(
        version::VERSION,
        format!("{}.{}.{}{}", version::MAJOR, version::MINOR, version::PATCH, version::SUFFIX)
    );
}

#[test]
fn test_feature_flags() {
    // The crate is built without the optional features.
    assert!(!features::DESKTOP_INTEGRATION_ENABLED);
    assert!(!features::THUMBNAILER_ENABLED);
}

#[test]
fn test_desktop_entry_edit_error() {
    let io_err = std::io::Error::new(std::io::ErrorKind::NotFound, "File not found");
    let edit_err = DesktopEntryEditError::File(io_err);
    assert!(matches!(edit_err, DesktopEntryEditError::File(_)));

    let format_err = DesktopEntryEditError::Format("Invalid format".to_string());
    assert!(matches!(format_err, DesktopEntryEditError::Format(_)));

    let missing_err = DesktopEntryEditError::MissingField("Name".to_string());
    assert!(matches!(missing_err, DesktopEntryEditError::MissingField(_)));

    let integration_err = DesktopIntegrationError::from_edit_error(format_err);
    assert!(matches!(integration_err, DesktopIntegrationError::DesktopIntegration(_)));
}

#[test]
fn test_error_display() {
    let err = AppImageError::InvalidFormat("Test format error".to_string());
    assert_eq!(err.message(), "Invalid format: Test format error");

    let err = AppImageError::NotFound("Test file".to_string());
    assert_eq!(err.message(), "Resource not found: Test file");
}

#[test]
fn edit_error_becomes_integration_message() {
    let e = DesktopIntegrationError::from_edit_error(DesktopEntryEditError::MissingField("Name".to_string()));
    match e {
        DesktopIntegrationError::DesktopIntegration(m) => assert_eq!(m, "Missing field: Name"),
        _ => panic!("wrong variant"),
    }
}

#[test]
fn error_codes_follow_the_error() {
    assert_eq!(ErrorCode::from_error(&AppImageError::InvalidFormat("x".to_string())), ErrorCode::FormatError);
    assert_eq!(ErrorCode::from_error(&AppImageError::SquashFs("x".to_string())), ErrorCode::SquashFsError);
    assert_eq!(ErrorCode::from_error(&AppImageError::NotFound("x".to_string())), ErrorCode::FileNotFound);
    assert_eq!(ErrorCode::from_error(&AppImageError::NulError("x".to_string())), ErrorCode::StringConversionError);
    assert_eq!(ErrorCode::from_error(&AppImageError::NotOpen), ErrorCode::NotOpen);
    assert_eq!(ErrorCode::from_error(&AppImageError::NotAFile), ErrorCode::NotAFile);
    assert_eq!(ErrorCode::from_error(&AppImageError::Elf("x".to_string())), ErrorCode::IoError);
    assert_eq!(ErrorCode::NotAFile.number(), 11);
    assert_eq!(ErrorCode::Success.number(), 0);
}

#[test]
fn test_format_conversion() {
    assert_eq!(AppImageFormat::from(1), AppImageFormat::Type1);
    assert_eq!(AppImageFormat::from(2), AppImageFormat::Type2);
    assert_eq!(AppImageFormat::from(3), AppImageFormat::Invalid);
}

#[test]
fn test_format_display() {
    assert_eq!(AppImageFormat::Type1.to_string(), "Type 1");
    assert_eq!(AppImageFormat::Type2.to_string(), "Type 2");
    assert_eq!(AppImageFormat::Invalid.to_string(), "Invalid");
}

fn header(kind: u8) -> Vec<u8> {
    let mut h = vec![0u8; FORMAT_HEADER_SIZE];
    h[0] = 0x7f;
    h[1] = b'E';
    h[2] = b'L';
    h[3] = b'F';
    h[8] = 0x41;
    h[9] = 0x49;
    h[10] = kind;
    h
}

#[test]
fn test_format_detection() {
    let format = AppImageFormat::from_header(&header(2));
    assert_eq!(format, AppImageFormat::Type2);
    assert!(format.is_valid());
    assert_eq!(format.as_str(), "Type 2");
    assert_eq!(format.as_number(), Some(2));
}

#[test]
fn format_detection_of_iso_without_magic() {
    let mut h = header(0);
    h[32769..32774].copy_from_slice(b"CD001");
    assert_eq!(AppImageFormat::from_header(&h), AppImageFormat::Type1);
    assert!(AppImageFormat::is_type1_without_magic(&h));
    let mut not_elf = header(2);
    not_elf[0] = 0;
    assert_eq!(AppImageFormat::from_header(&not_elf), AppImageFormat::Invalid);
}

#[test]
fn appimage_open_and_refuse() {
    let a = AppImage::new("/tmp/a.AppImage", &header(1)).unwrap();
    assert_eq!(a.get_path(), "/tmp/a.AppImage");
    assert_eq!(a.get_format(), AppImageFormat::Type1);
    match AppImage::new("/tmp/b", &header(7)) {
        Err(AppImageError::InvalidFormat(m)) => assert_eq!(m, "Unknown AppImage format: /tmp/b"),
        _ => panic!("expected a format error"),
    }
}

#[test]
fn test_read() {
    let data = b"Hello, World!";
    let mut stream = PayloadIStream::new(data.to_vec());
    let mut buffer = [0u8; 13];
    assert_eq!(stream.read(&mut buffer), 13);
    assert_eq!(&buffer, data);
}

#[test]
fn payload_stream_reads_in_pieces() {
    let mut stream = PayloadIStream::new(b"abcde".to_vec());
    let mut buffer = [0u8; 3];
    assert_eq!(stream.read(&mut buffer), 3);
    assert_eq!(&buffer, b"abc");
    assert_eq!(stream.read(&mut buffer), 2);
    assert_eq!(&buffer, b"dec");
    assert_eq!(stream.read(&mut buffer), 0);
    assert!(matches!(stream.fill_buf(), Err(AppImageError::NotSupported(_))));
}

#[test]
fn test_from_mode() {
    assert_eq!(PayloadEntryType::from_mode(0o100000), PayloadEntryType::File);
    assert_eq!(PayloadEntryType::from_mode(0o120000), PayloadEntryType::Symlink);
    assert_eq!(PayloadEntryType::from_mode(0o040000), PayloadEntryType::Directory);
    assert_eq!(PayloadEntryType::from_mode(0o020000), PayloadEntryType::CharDevice);
    assert_eq!(PayloadEntryType::from_mode(0o060000), PayloadEntryType::BlockDevice);
    assert_eq!(PayloadEntryType::from_mode(0o010000), PayloadEntryType::Fifo);
    assert_eq!(PayloadEntryType::from_mode(0o140000), PayloadEntryType::Socket);
    assert_eq!(PayloadEntryType::from_mode(0), PayloadEntryType::Unknown);
}

#[test]
fn test_to_mode() {
    assert_eq!(PayloadEntryType::File.to_mode(), 0o100000);
    assert_eq!(PayloadEntryType::Symlink.to_mode(), 0o120000);
    assert_eq!(PayloadEntryType::Directory.to_mode(), 0o040000);
    assert_eq!(PayloadEntryType::CharDevice.to_mode(), 0o020000);
    assert_eq!(PayloadEntryType::BlockDevice.to_mode(), 0o060000);
    assert_eq!(PayloadEntryType::Fifo.to_mode(), 0o010000);
    assert_eq!(PayloadEntryType::Socket.to_mode(), 0o140000);
    assert_eq!(PayloadEntryType::Unknown.to_mode(), 0);
}

#[test]
fn test_from_str() {
    assert_eq!(PayloadEntryType::from_str("file").unwrap(), PayloadEntryType::File);
    assert_eq!(PayloadEntryType::from_str("symlink").unwrap(), PayloadEntryType::Symlink);
    assert_eq!(PayloadEntryType::from_str("directory").unwrap(), PayloadEntryType::Directory);
    assert_eq!(PayloadEntryType::from_str("char").unwrap(), PayloadEntryType::CharDevice);
    assert_eq!(PayloadEntryType::from_str("block").unwrap(), PayloadEntryType::BlockDevice);
    assert_eq!(PayloadEntryType::from_str("fifo").unwrap(), PayloadEntryType::Fifo);
    assert_eq!(PayloadEntryType::from_str("socket").unwrap(), PayloadEntryType::Socket);
    assert!(PayloadEntryType::from_str("unknown").is_err());
}

#[test]
fn test_predicates() {
    let file = PayloadEntryType::File;
    let symlink = PayloadEntryType::Symlink;
    let dir = PayloadEntryType::Directory;
    let char_dev = PayloadEntryType::CharDevice;
    let block_dev = PayloadEntryType::BlockDevice;
    let fifo = PayloadEntryType::Fifo;
    let socket = PayloadEntryType::Socket;

    assert!(file.is_file());
    assert!(symlink.is_symlink());
    assert!(dir.is_directory());
    assert!(char_dev.is_device());
    assert!(block_dev.is_device());
    assert!(fifo.is_special());
    assert!(socket.is_special());
}

#[test]
fn test_display() {
    assert_eq!(PayloadEntryType::File.to_string(), "file");
    assert_eq!(PayloadEntryType::Symlink.to_string(), "symlink");
    assert_eq!(PayloadEntryType::Directory.to_string(), "directory");
    assert_eq!(PayloadEntryType::CharDevice.to_string(), "char");
    assert_eq!(PayloadEntryType::BlockDevice.to_string(), "block");
    assert_eq!(PayloadEntryType::Fifo.to_string(), "fifo");
    assert_eq!(PayloadEntryType::Socket.to_string(), "socket");
    assert_eq!(PayloadEntryType::Unknown.to_string(), "unknown");
}

#[test]
fn mode_and_name_round_trip() {
    for t in [
        PayloadEntryType::File,
        PayloadEntryType::Symlink,
        PayloadEntryType::Directory,
        PayloadEntryType::CharDevice,
        PayloadEntryType::BlockDevice,
        PayloadEntryType::Fifo,
        PayloadEntryType::Socket,
    ] {
        assert_eq!(PayloadEntryType::from_mode(t.to_mode()), t);
        assert_eq!(PayloadEntryType::from_str(&t.to_string()).unwrap(), t);
    }
}

fn payload_image() -> Vec<u8> {
    // An ELF part of 0x30 bytes whose size field says 0x30.
    let mut d = vec![0u8; 0x30];
    d[0..4].copy_from_slice(&[0x7f, b'E', b'L', b'F']);
    d[0x28..0x30].copy_from_slice(&0x30u64.to_le_bytes());
    d
}

#[test]
fn payload_iterator_reads_entries() {
    // Entries are read from the start of the data, where the ELF magic is
    // the first entry's mode; its 38-byte name holds the ELF size field
    // at offset 0x28.
    let mut name = b"first-entry-name-of-thirty-chars".to_vec();
    name.truncate(30);
    name.extend_from_slice(&0x30u64.to_le_bytes());
    let mut data = Vec::new();
    data.extend_from_slice(&[0x7f, b'E', b'L', b'F']);
    data.extend_from_slice(&1024u32.to_le_bytes());
    data.extend_from_slice(&(name.len() as u16).to_le_bytes());
    data.extend_from_slice(&name);
    data.extend_from_slice(&0o644u32.to_le_bytes());
    data.extend_from_slice(&1234567890u64.to_le_bytes());
    data.extend_from_slice(&0o120777u32.to_le_bytes());
    data.extend_from_slice(&0u32.to_le_bytes());
    data.extend_from_slice(&8u16.to_le_bytes());
    data.extend_from_slice(b"link.txt");
    data.extend_from_slice(&0o777u32.to_le_bytes());
    data.extend_from_slice(&5u64.to_le_bytes());
    data.extend_from_slice(&8u16.to_le_bytes());
    data.extend_from_slice(b"test.txt");
    data.extend_from_slice(&[0u8; 8]);
    assert_eq!(&data[0x28..0x30], &0x30u64.to_le_bytes());

    let mut it = PayloadIterator::new("test.AppImage", data.clone()).unwrap();
    assert_eq!(it.payload_size, data.len() as u64 - 0x30);
    assert!(it.next().unwrap());
    assert_eq!(it.get_type(), PayloadEntryType::from_mode(0x464c457f));
    assert_eq!(it.get_name(), String::from_utf8_lossy(&name));
    assert_eq!(it.get_size(), 1024);
    assert_eq!(it.get_mode(), 0o644);
    assert_eq!(it.get_mtime(), 1234567890);

    assert!(it.next().unwrap());
    assert_eq!(it.get_type(), PayloadEntryType::Symlink);
    assert_eq!(it.get_name(), "link.txt");
    assert_eq!(it.get_mtime(), 5);
    assert_eq!(it.get_target(), "test.txt");

    assert!(!it.next().unwrap());

    it.reset();
    assert!(it.next().unwrap());
    assert_eq!(it.get_size(), 1024);
}

#[test]
fn payload_iterator_refuses_non_elf() {
    let mut d = payload_image();
    d[0] = 0;
    match PayloadIterator::new("x", d) {
        Err(AppImageError::InvalidFormat(m)) => assert_eq!(m, "Not an ELF file"),
        _ => panic!("expected a format error"),
    }
    let short = vec![0x7f, b'E', b'L', b'F', 0, 0];
    assert!(matches!(PayloadIterator::new("x", short), Err(AppImageError::Io(_))));
}

#[test]
fn payload_iterator_stops_at_end_marker() {
    let mut d = payload_image();
    for b in d.iter_mut().take(0x28) {
        *b = 0;
    }
    d[0..4].copy_from_slice(&[0x7f, b'E', b'L', b'F']);
    let mut it = PayloadIterator::new("x", d).unwrap();
    it.position = 8;
    assert!(!it.next().unwrap());
    assert_eq!(it.position, 8);
}

#[test]
fn handler_file_names() {
    let h = AppImageHandler::new("/tmp/app").unwrap();
    assert_eq!(h.get_type(), 0);
    assert_eq!(h.get_file_name("usr/bin/app").unwrap(), "usr/bin/app");
    match h.get_file_name("a\0b") {
        Err(AppImageError::NulError(m)) => assert_eq!(m, "nul byte found in provided data at position: 1"),
        _ => panic!("expected a NUL error"),
    }
    let mut closed = AppImageHandler::new("/tmp/app").unwrap();
    closed.is_open = false;
    closed.set_type(2);
    assert_eq!(closed.get_type(), 2);
    assert!(matches!(closed.get_file_name("x"), Err(AppImageError::InvalidState(_))));
    assert!(!closed.is_valid());
}

#[test]
fn type_handlers() {
    assert_eq!(Type1Handler::get_file_name("././usr/bin").unwrap(), "usr/bin");
    assert_eq!(Type1Handler::get_file_name("../x").unwrap(), "../x");
    let mut t1 = Type1Handler::new("/tmp/a").unwrap();
    t1.set_type(5);
    assert_eq!(t1.get_type(), 1);
    let mut t2 = Type2Handler::new("/tmp/a").unwrap();
    assert_eq!(t2.get_type(), 2);
    t2.set_type(3);
    assert_eq!(t2.get_type(), 3);
    assert_eq!(t2.get_file_name("x/y").unwrap(), "x/y");
}

#[test]
fn default_progress_bar_lines() {
    let mut bar = DefaultProgressBar::new();
    assert_eq!(bar.error("bad"), Some("bad\n".to_string()));
    bar.disable();
    assert_eq!(bar.info("ok"), None);
    bar.enable();
    assert_eq!(bar.info("ok"), Some("ok\n".to_string()));
}

#[test]
fn payload_offset_is_the_elf_size() {
    let a = AppImage::new("/tmp/a.AppImage", &header(2)).unwrap();
    let mut ident = [0u8; 16];
    ident[..4].copy_from_slice(&[0x7f, b'E', b'L', b'F']);
    ident[4] = 2;
    ident[5] = 1;
    ident[6] = 1;
    let size = 0x0001_2345u64.to_le_bytes();
    assert_eq!(a.get_payload_offset(&ident, &size).unwrap(), 0x12345);
    ident[4] = 1;
    assert_eq!(a.get_payload_offset(&ident, &[0x10, 0, 0, 0]).unwrap(), 16);
    ident[4] = 3;
    match a.get_payload_offset(&ident, &size) {
        Err(AppImageError::Elf(m)) => assert_eq!(m, "Unsupported ELF class: 3"),
        _ => panic!("expected an ELF error"),
    }
    ident[0] = 0;
    match a.get_payload_offset(&ident, &size) {
        Err(AppImageError::Elf(m)) => assert_eq!(m, "Invalid ELF format: Not an ELF file"),
        _ => panic!("expected an ELF error"),
    }
}

#[test]
fn test_error_conversion() {
    let io_err = std::io::Error::new(std::io::ErrorKind::NotFound, "File not found");
    let app_err: AppImageError = io_err.into();
    assert!(matches!(app_err, AppImageError::Io(_)));

    let str_err = "Test error".to_string();
    let app_err = AppImageError::OperationFailed(str_err);
    assert!(matches!(app_err, AppImageError::OperationFailed(_)));

    let result: Result<(), String> = Err("Test error".to_string());
    let app_result = result.into_appimage_string_error();
    assert!(matches!(app_result, Err(AppImageError::OperationFailed(_))));
}

#[test]
fn errors_convert_with_their_messages() {
    let r: Result<u8, String> = Ok(3);
    assert_eq!(r.into_appimage_string_error().unwrap(), 3);
    let r: Result<u8, std::io::Error> = Err(std::io::Error::new(std::io::ErrorKind::Other, "gone"));
    assert!(matches!(r.into_appimage_io_error(), Err(AppImageError::Io(_))));
    let e = DesktopIntegrationError::NotFound("XDG_DATA_HOME not found".to_string());
    assert_eq!(e.message(), "Resource not found: XDG_DATA_HOME not found");
    match AppImageError::from_integration_error(e) {
        AppImageError::DesktopIntegration(m) => assert_eq!(m, "Resource not found: XDG_DATA_HOME not found"),
        _ => panic!("expected a desktop integration error"),
    }
}

#[test]
fn last_error_messages_map_to_codes() {
    assert_eq!(ErrorCode::from_last_error(None), ErrorCode::Success);
    assert_eq!(ErrorCode::from_last_error(Some("IO error")), ErrorCode::IoError);
    assert_eq!(ErrorCode::from_last_error(Some("Not a file")), ErrorCode::NotAFile);
    assert_eq!(ErrorCode::from_last_error(Some("SquashFS error")), ErrorCode::SquashFsError);
    assert_eq!(ErrorCode::from_last_error(Some("IO error: gone")), ErrorCode::Success);
}

#[test]
fn test_elf_file() {
    // The header of a 64-bit little-endian ELF file whose size field
    // (the section header offset that follows the identification bytes)
    // is 0x1000.
    let path = "test.AppImage";
    let mut ident = vec![0u8; 16];
    ident[..7].copy_from_slice(&[0x7f, b'E', b'L', b'F', 2, 1, 1]);
    let size_bytes = 0x1000u64.to_le_bytes();
    let elf = libappimage::elf::ElfFile::from_header(path.to_string(), &ident, &size_bytes).unwrap();
    assert!(elf.get_size() > 0);
}

#[test]
fn payload_iterator_moves_past_the_target_text() {
    // An ELF-looking first entry, then a symbolic link whose 2-byte target
    // is not valid UTF-8: its text is U+FFFD and "x", 4 bytes, and the
    // iterator moves on by those 4 bytes.
    let mut name = vec![b'n'; 30];
    name.extend_from_slice(&0x30u64.to_le_bytes());
    let mut data = Vec::new();
    data.extend_from_slice(&[0x7f, b'E', b'L', b'F']);
    data.extend_from_slice(&0u32.to_le_bytes());
    data.extend_from_slice(&(name.len() as u16).to_le_bytes());
    data.extend_from_slice(&name);
    data.extend_from_slice(&0u32.to_le_bytes());
    data.extend_from_slice(&0u64.to_le_bytes());
    let link_at = data.len();
    data.extend_from_slice(&0o120777u32.to_le_bytes());
    data.extend_from_slice(&0u32.to_le_bytes());
    data.extend_from_slice(&1u16.to_le_bytes());
    data.extend_from_slice(b"l");
    data.extend_from_slice(&0o777u32.to_le_bytes());
    data.extend_from_slice(&0u64.to_le_bytes());
    data.extend_from_slice(&2u16.to_le_bytes());
    data.extend_from_slice(&[0xFF, b'x']);
    let stored_end = data.len();
    data.extend_from_slice(&[0u8; 16]);

    let mut it = PayloadIterator::new("test.AppImage", data).unwrap();
    assert!(it.next().unwrap());
    assert_eq!(it.position, link_at as u64);
    assert!(it.next().unwrap());
    assert_eq!(it.get_target(), "\u{FFFD}x");
    assert_eq!(it.position, stored_end as u64 + 2);
    assert!(!it.next().unwrap());
}
