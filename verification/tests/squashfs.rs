use libappimage::squashfs_tools::restore::{on_restore_signal, restore_warning_text, RestoreStep, SIGINT, SIGTERM, SIGUSR1};
use libappimage::squashfs_tools::signals::{after_wait, WaitOutcome};
use libappimage::squashfs_tools::atomic_swap::ReadEntryPtr;
use libappimage::squashfs_tools::caches_queues_lists::{Cache, CircularQueue, FileBuffer as QueueBuffer, Queue};
use libappimage::squashfs_tools::compat::{
    squashfs_fragment_bytes_3, squashfs_fragment_index_3, squashfs_fragment_index_offset_3,
    squashfs_lookup_block_3, squashfs_lookup_block_offset_3, squashfs_lookup_bytes_3, swap_super_block_3,
    SquashfsSuperBlock3,
};
use libappimage::squashfs_tools::compressor::{CompressionType as Kind, CompressorManager};
use libappimage::squashfs_tools::date::{get_current_timestamp, parse_date_output, timestamp_of_seconds};
use libappimage::squashfs_tools::fnmatch::{convert_pattern_to_regex, fnmatch, FNM_CASEFOLD, FNM_MATCH, FNM_NOMATCH, FNM_PATHNAME};
use libappimage::squashfs_tools::readahead::ReadaheadCache;
use libappimage::squashfs_tools::fragments::{FileBuffer, FileInfo, Fragment, FragmentProcessor};
use libappimage::squashfs_tools::compressor::DefaultCompressor;
use libappimage::squashfs_tools::fs::{
    squashfs_compressed, squashfs_compressed_size, squashfs_mk_vfs_inode, squashfs_mode, CompressionType,
    SquashFsFileType, SquashFsFlags,
};
use libappimage::squashfs_tools::help::HelpManager;
use libappimage::squashfs_tools::limit::{file_limit_from, OPEN_FILE_MARGIN};
use libappimage::squashfs_tools::memory::check_usable_phys_mem;
use libappimage::squashfs_tools::merge_sort::sort_by_name;
use libappimage::squashfs_tools::pager::Pager;
use libappimage::squashfs_tools::progress::ProgressBar;
use libappimage::squashfs_tools::read_queue::ReadQueue;
use libappimage::squashfs_tools::reader::ReaderManager;
use libappimage::squashfs_tools::seq_queue::SeqQueue;
use libappimage::squashfs_tools::{CompressionType as FsCompression, NoCompressor, SquashFs, SquashFsVersion};

#[test]
fn test_atomic_swap() {
    let mut ptr = ReadEntryPtr::new(Some(42));
    assert_eq!(ptr.get(), Some(&42));
    let old_value = ptr.swap();
    assert_eq!(old_value, Some(42));
    assert!(ptr.get().is_none());
    ptr.set(Some(24));
    assert_eq!(ptr.get(), Some(&24));
}

#[test]
fn test_null_swap() {
    let mut ptr = ReadEntryPtr::<i32>::default();
    assert!(ptr.get().is_none());
    let result = ptr.swap();
    assert!(result.is_none());
    assert!(ptr.get().is_none());
}

#[test]
fn test_circular_queue() {
    let mut queue = CircularQueue::<i32>::new(2);
    queue.put(42).unwrap();
    let value = queue.get().unwrap();
    assert_eq!(value, 42);
    assert!(queue.empty());
    queue.put(1).unwrap();
    queue.put(2).unwrap();
    assert!(queue.put(3).is_err());
}

#[test]
fn circular_queue_keeps_order_and_flushes() {
    let mut queue = CircularQueue::<i32>::new(3);
    queue.put(1).unwrap();
    queue.put(2).unwrap();
    queue.put(3).unwrap();
    assert_eq!(queue.get().unwrap(), 1);
    queue.put(4).unwrap();
    assert_eq!(queue.get().unwrap(), 2);
    queue.flush();
    assert!(queue.empty());
    assert!(queue.get().is_err());
}

#[test]
fn test_cache() {
    let mut cache = Cache::new(1024, 2, true, true);
    let mut buffer = cache.get(1).unwrap();
    buffer.index = 1;
    cache.put(buffer);
    let buffer = cache.lookup(1).unwrap();
    assert_eq!(buffer.index, 1);
}

#[test]
fn test_super_block_swap() {
    let mut sb = SquashfsSuperBlock3 {
        s_magic: 0x12345678,
        inodes: 0x87654321,
        bytes_used_2: 0x11223344,
        uid_start_2: 0x44332211,
        guid_start_2: 0x55667788,
        inode_table_start_2: 0x88776655,
        directory_table_start_2: 0x99aabbcc,
        s_major: 0xccdd,
        s_minor: 0xeeff,
        block_size_1: 0x1122,
        block_log: 0x3344,
        flags: 0x55,
        no_uids: 0x66,
        no_guids: 0x77,
        mkfs_time: 0x8899aabbu32 as i32,
        root_inode: 0x1122334455667788,
        block_size: 0x99aabbcc,
        fragments: 0xddffeeff,
        fragment_table_start_2: 0x11223344,
        bytes_used: 0x5566778899aabbcc,
        uid_start: 0x1122334455667788,
        guid_start: 0x99aabbccddeeff00u64 as i64,
        inode_table_start: 0x1122334455667788,
        directory_table_start: 0x99aabbccddeeff00u64 as i64,
        fragment_table_start: 0x1122334455667788,
        lookup_table_start: 0x99aabbccddeeff00u64 as i64,
    };
    let original = sb;
    swap_super_block_3(&mut sb);
    assert_eq!(sb.s_magic, 0x78563412);
    assert_eq!(sb.inodes, 0x21436587);
    swap_super_block_3(&mut sb);
    assert_eq!(sb.root_inode, original.root_inode);
    assert_eq!(sb.guid_start, original.guid_start);
}

#[test]
fn test_fragment_calculations() {
    let fragments = 100;
    assert_eq!(squashfs_fragment_bytes_3(fragments), 1200);
    assert_eq!(squashfs_fragment_index_3(fragments), 0);
    assert_eq!(squashfs_fragment_index_offset_3(fragments), 1200);
}

#[test]
fn test_lookup_calculations() {
    let inodes = 100;
    assert_eq!(squashfs_lookup_bytes_3(inodes), 800);
    assert_eq!(squashfs_lookup_block_3(inodes), 0);
    assert_eq!(squashfs_lookup_block_offset_3(inodes), 800);
}

#[test]
fn test_compressor_lookup() {
    let manager = CompressorManager::new();
    let gzip = manager.lookup_compressor("gzip");
    assert_eq!(gzip.name(), "gzip");
    assert!(gzip.supported());
    let unknown = manager.lookup_compressor("unknown");
    assert_eq!(unknown.name(), "unknown");
    assert!(!unknown.supported());
}

#[test]
fn test_compression_type() {
    assert_eq!(Kind::Gzip.id(), 1);
    assert_eq!(Kind::Gzip.name(), "gzip");
}

#[test]
fn test_get_current_timestamp() {
    let timestamp = get_current_timestamp().unwrap();
    assert!(timestamp > 0);
}

#[test]
fn date_output_is_checked() {
    assert_eq!(parse_date_output("1704067200\n").unwrap(), 1704067200);
    assert!(parse_date_output("-1").is_err());
    assert!(parse_date_output("4294967296").is_err());
    assert!(parse_date_output("tomorrow").is_err());
}

#[test]
fn test_pattern_conversion() {
    let pattern = "test[0-9]*.txt";
    let regex = convert_pattern_to_regex(pattern).unwrap();
    assert_eq!(regex, "test[0-9].*.txt");
}

#[test]
fn test_basic_matching() {
    assert_eq!(fnmatch("*.txt", "test.txt", 0).unwrap(), FNM_MATCH);
    assert_eq!(fnmatch("*.txt", "test.doc", 0).unwrap(), FNM_NOMATCH);
}

#[test]
fn test_case_folding() {
    assert_eq!(fnmatch("*.TXT", "test.txt", FNM_CASEFOLD).unwrap(), FNM_MATCH);
    assert_eq!(fnmatch("*.txt", "test.TXT", FNM_CASEFOLD).unwrap(), FNM_MATCH);
}

#[test]
fn test_pathname_matching() {
    assert_eq!(fnmatch("*.txt", "dir/test.txt", FNM_PATHNAME).unwrap(), FNM_MATCH);
    assert_eq!(fnmatch("*.txt", "dir/subdir/test.txt", FNM_PATHNAME).unwrap(), FNM_MATCH);
}

#[test]
fn test_invalid_flags() {
    assert!(fnmatch("*.txt", "test.txt", 0x100).is_err());
}

#[test]
fn test_checksum_sparse() {
    let processor = FragmentProcessor::new(DefaultCompressor::new(Kind::Gzip), 4096, true, 0);
    let mut buffer = FileBuffer {
        data: vec![0; 100],
        size: 100,
        file_size: 100,
        checksum: 0,
        fragment: None,
        duplicate: false,
        dupl_start: None,
    };
    assert!(processor.checksum_sparse(&mut buffer));
}

#[test]
fn checksum_of_data_is_not_sparse() {
    let processor = FragmentProcessor::new(DefaultCompressor::new(Kind::Gzip), 4096, true, 0);
    let mut buffer = FileBuffer {
        data: vec![1, 2, 3],
        size: 3,
        file_size: 3,
        checksum: 0,
        fragment: None,
        duplicate: false,
        dupl_start: None,
    };
    assert!(!processor.checksum_sparse(&mut buffer));
    assert_ne!(buffer.checksum, 0);
}

#[test]
fn test_squashfs_flags() {
    let flags = SquashFsFlags::new(0b000000000001);
    assert!(flags.uncompressed_inodes());
    assert!(!flags.uncompressed_data());
    assert!(!flags.uncompressed_fragments());
}

#[test]
fn test_file_type_conversion() {
    assert_eq!(SquashFsFileType::try_from(1).unwrap(), SquashFsFileType::Dir);
    assert_eq!(SquashFsFileType::try_from(2).unwrap(), SquashFsFileType::File);
    assert!(SquashFsFileType::try_from(15).is_err());
}

#[test]
fn test_compression_type_conversion() {
    assert_eq!(CompressionType::try_from(1).unwrap(), CompressionType::Zlib);
    assert_eq!(CompressionType::try_from(6).unwrap(), CompressionType::Zstd);
    assert!(CompressionType::try_from(7).is_err());
}

#[test]
fn fs_test_helper_functions() {
    assert_eq!(squashfs_mk_vfs_inode(1, 2), 258);
    assert_eq!(squashfs_mode(0x1fff), 0xfff);
    assert_eq!(squashfs_compressed_size(0x8001), 1);
    assert!(squashfs_compressed(0x8001));
    assert!(!squashfs_compressed(0x0001));
}

#[test]
fn test_help_manager() {
    let manager = HelpManager::new("test_prog");
    assert_eq!(manager.prog_name, "test_prog");
    assert!(manager.column_width > 0);
}

#[test]
fn test_section_header() {
    let manager = HelpManager::new("test");
    assert!(manager.is_header("Test section:"));
    assert!(!manager.is_header("Not a header"));
}

#[test]
fn test_check_usable_phys_mem() {
    let name = "test_app";
    // a machine with 16 GiB of physical memory
    let phys = 16384;
    assert!(check_usable_phys_mem(1024, name, phys).is_ok());
    let result = check_usable_phys_mem(1024 * 1024 * 1024, name, phys);
    assert!(result.is_err());
    let result = check_usable_phys_mem(0, name, phys);
    assert!(result.is_ok());
}

#[test]
fn test_32bit_limitations() {
    let name = "test_app";
    if usize::BITS == 32 {
        let result = check_usable_phys_mem(2049, name, 16384);
        assert!(result.is_err());
        let result = check_usable_phys_mem(2048, name, 16384);
        assert!(result.is_ok());
    }
}

#[test]
fn memory_limit_is_three_quarters() {
    assert!(check_usable_phys_mem(768, "x", 1024).is_ok());
    assert!(check_usable_phys_mem(769, "x", 1024).is_err());
    assert!(check_usable_phys_mem(1, "x", 0).is_err());
}

fn names(v: &[&str]) -> Vec<String> {
    v.iter().map(|s| s.to_string()).collect()
}

#[test]
fn test_sort_empty() {
    let mut list: Vec<String> = Vec::new();
    sort_by_name(&mut list, 0);
    assert!(list.is_empty());
}

#[test]
fn test_sort_single() {
    let mut list = names(&["test"]);
    sort_by_name(&mut list, 1);
    assert_eq!(list, vec!["test"]);
}

#[test]
fn test_sort_multiple() {
    let mut list = names(&["c", "a", "b", "d"]);
    sort_by_name(&mut list, 4);
    assert_eq!(list, vec!["a", "b", "c", "d"]);
}

#[test]
fn test_sort_duplicates() {
    let mut list = names(&["b", "a", "b", "a"]);
    sort_by_name(&mut list, 4);
    assert_eq!(list, vec!["a", "a", "b", "b"]);
}

#[test]
fn test_sort_large() {
    let owned: Vec<String> = (0..100).map(|i| format!("item{}", i)).collect();
    let mut list = owned.clone();
    sort_by_name(&mut list, 100);
    assert_eq!(list.len(), 100);
    assert!(list.windows(2).all(|w| w[0] <= w[1]));
}

#[test]
fn test_squashfs_builder() {
    let fs = SquashFs::builder()
        .block_size(256 * 1024)
        .compression_type(FsCompression::Zstd)
        .version(SquashFsVersion::V4_0)
        .use_xattrs(true)
        .use_fragments(true)
        .use_export_table(false)
        .use_original_inode(false)
        .build()
        .unwrap();

    assert_eq!(fs.options().block_size, 256 * 1024);
    assert_eq!(fs.options().compression_type, FsCompression::Zstd);
    assert_eq!(fs.options().version, SquashFsVersion::V4_0);
    assert!(fs.options().use_xattrs);
    assert!(fs.options().use_fragments);
    assert!(!fs.options().use_export_table);
    assert!(!fs.options().use_original_inode);
}

#[test]
fn test_no_compression() {
    let compressor = NoCompressor;
    let input = b"Hello, World!";
    let mut output = vec![0; input.len() * 2];

    let compressed_size = compressor.compress(input, &mut output).unwrap();
    assert_eq!(compressed_size, input.len());
    assert_eq!(&output[..compressed_size], input);

    let mut decompressed = vec![0; input.len()];
    let decompressed_size = compressor.decompress(&output[..compressed_size], &mut decompressed).unwrap();
    assert_eq!(decompressed_size, input.len());
    assert_eq!(&decompressed[..decompressed_size], input);
}

#[test]
fn test_pager_creation() {
    let pager = Pager::new();
    assert_eq!(pager.command, "/usr/bin/pager");
    assert_eq!(pager.name, "pager");
    assert!(!pager.from_env);
}

#[test]
fn test_autowrap_print() {
    let text = "This is a long line that should wrap at some point because it exceeds the maximum length.";
    let result = Pager::autowrap_print(text, 20);
    assert!(result.contains('\n'));
}

#[test]
fn pager_choice() {
    let mut pager = Pager::new();
    pager.check_and_set_pager("/usr/bin/less").unwrap();
    assert_eq!(pager.name, "less");
}

#[test]
fn test_progress_bar_creation() {
    let progress = ProgressBar::new().unwrap();
    assert!(!progress.display_enabled);
    assert!(!progress.temp_disabled);
    assert!(!progress.percent_mode);
    assert_eq!(progress.cur_uncompressed, 0);
    assert_eq!(progress.estimated_uncompressed, 0);
}

#[test]
fn test_progress_bar_increment() {
    let mut progress = ProgressBar::new().unwrap();
    progress.increment();
    assert_eq!(progress.cur_uncompressed, 1);
}

#[test]
fn test_progress_bar_decrement() {
    let mut progress = ProgressBar::new().unwrap();
    progress.cur_uncompressed = 10;
    progress.decrement(3);
    assert_eq!(progress.cur_uncompressed, 7);
}

#[test]
fn test_progress_bar_set_size() {
    let mut progress = ProgressBar::new().unwrap();
    progress.set_size(100).unwrap();
    assert_eq!(progress.estimated_uncompressed, 100);
}

#[test]
fn test_read_queue() {
    let mut queue = ReadQueue::new();
    queue.set(2, 2);

    let mut buffer = QueueBuffer::new(1024);
    buffer.file_count = 1;
    buffer.block = 0;
    buffer.version = 0;

    queue.put(0, buffer.clone()).unwrap();
    let result = queue.get().unwrap();

    assert_eq!(result.file_count, 1);
    assert_eq!(result.block, 0);
    assert_eq!(result.version, 0);
}

#[test]
fn test_read_queue_multiple_threads() {
    let mut queue = ReadQueue::new();
    queue.set(2, 2);

    let mut buffer1 = QueueBuffer::new(1024);
    buffer1.file_count = 1;
    buffer1.block = 0;
    buffer1.version = 0;

    let mut buffer2 = QueueBuffer::new(1024);
    buffer2.file_count = 1;
    buffer2.block = 1;
    buffer2.version = 0;

    queue.put(0, buffer1).unwrap();
    queue.put(1, buffer2).unwrap();

    let result1 = queue.get().unwrap();
    let result2 = queue.get().unwrap();

    assert_eq!(result1.block, 0);
    assert_eq!(result2.block, 1);
}

#[test]
fn test_main_queue() {
    let mut queue = SeqQueue::new();

    let mut entry = QueueBuffer::new(1024);
    entry.file_count = 1;
    entry.block = 0;
    entry.version = 0;
    entry.fragment = false;

    queue.main_queue_put(entry.clone());
    let result = queue.main_queue_get().unwrap();

    assert_eq!(result.file_count, 1);
    assert_eq!(result.block, 0);
    assert_eq!(result.version, 0);
}

#[test]
fn test_fragment_queue() {
    let mut queue = SeqQueue::new();

    let mut entry = QueueBuffer::new(1024);
    entry.sequence = 1;
    entry.fragment = true;

    queue.fragment_queue_put(entry.clone());
    let result = queue.fragment_queue_get().unwrap();

    assert_eq!(result.sequence, 1);
    assert!(result.fragment);
}

#[test]
fn test_reader_manager_creation() {
    let manager = ReaderManager::new();
    assert_eq!(manager.reader_threads, 0);
    assert_eq!(manager.block_threads, 1);
    assert_eq!(manager.fragment_threads, 0);
    assert!(manager.single_threaded);
}

#[test]
fn test_readahead_index() {
    assert_eq!(ReaderManager::readahead_index(0), 0);
    assert_eq!(ReaderManager::readahead_index(8192), 1);
    assert_eq!(ReaderManager::readahead_index(16384), 2);
}

#[test]
fn test_readahead_offset() {
    assert_eq!(ReaderManager::readahead_offset(0), 0);
    assert_eq!(ReaderManager::readahead_offset(8192), 0);
    assert_eq!(ReaderManager::readahead_offset(8193), 1);
}

#[test]
fn reader_thread_counts() {
    let mut manager = ReaderManager::new();
    manager.set_read_frag_threads(2);
    assert_eq!(manager.get_reader_num(), 3);
    manager.set_read_block_threads(4);
    assert_eq!(manager.get_reader_num(), 6);
    manager.set_single_threaded();
    assert_eq!(manager.get_reader_num(), 1);
}

use libappimage::squashfs_tools::action::{ActionError, ActionLogLevel, ActionType, Expr, Token};
use libappimage::squashfs_tools::action_eval::{Action, ActionData, ActionManager};

fn atom(name: &str) -> Expr {
    Expr::Atom { name: name.to_string(), args: Vec::new() }
}

fn data() -> ActionData {
    ActionData { depth: 1, name: "f".to_string(), pathname: "/a/f".to_string(), subpath: "a/f".to_string() }
}

#[test]
fn action_tests_evaluate_with_short_circuit() {
    let calls = std::cell::Cell::new(0);
    let test = |n: &String, _a: &Vec<String>, d: &ActionData| {
        calls.set(calls.get() + 1);
        n == "yes" && d.depth == 1
    };
    let m = ActionManager::new();
    let e = Expr::Op { lhs: Box::new(atom("no")), rhs: Box::new(atom("yes")), op: Token::And };
    assert!(!m.eval_expr(&e, &data(), &test));
    assert_eq!(calls.get(), 1);
    let e = Expr::Op { lhs: Box::new(atom("no")), rhs: Box::new(atom("yes")), op: Token::Or };
    assert!(m.eval_expr(&e, &data(), &test));
    let e = Expr::Unary { expr: Box::new(atom("no")), op: Token::Not };
    assert!(m.eval_expr(&e, &data(), &test));
    let e = Expr::Op { lhs: Box::new(atom("yes")), rhs: Box::new(atom("yes")), op: Token::Comma };
    assert!(!m.eval_expr(&e, &data(), &test));
}

#[test]
fn action_manager_selects_files() {
    let mut m = ActionManager::new();
    let test = |n: &String, _a: &Vec<String>, d: &ActionData| n == "match" && d.name == "f";
    assert!(!m.eval_exclude_actions(&data(), &test));
    m.exclude_spec.push(Action {
        action_type: ActionType::Exclude,
        args: Vec::new(),
        expr: atom("match"),
        verbose: ActionLogLevel::Off,
    });
    assert!(m.eval_exclude_actions(&data(), &test));
    m.empty_spec.push(Action { action_type: ActionType::Empty, args: Vec::new(), expr: atom("match"), verbose: ActionLogLevel::Off });
    assert!(m.eval_empty_actions(0, &data(), &test).unwrap());
    assert!(!m.eval_empty_actions(2, &data(), &test).unwrap());
    assert!(!m.eval_prune_actions(&data(), &test).unwrap());
    m.other_spec.push(Action { action_type: ActionType::Noop, args: Vec::new(), expr: atom("other"), verbose: ActionLogLevel::Off });
    m.other_spec.push(Action { action_type: ActionType::Noop, args: Vec::new(), expr: atom("match"), verbose: ActionLogLevel::Off });
    assert_eq!(m.eval_actions(&data(), &test).unwrap(), vec![1]);
    assert!(m.eval_move_actions(&data(), &test).is_ok());
    assert!(m.do_move_actions().is_ok());
}

#[test]
fn action_parsing_fails_at_the_test() {
    let mut m = ActionManager::new();
    match m.parse_action("name(foo) exclude", ActionLogLevel::Off) {
        Err(ActionError::ParseError(msg)) => assert_eq!(msg, "Unknown test: name"),
        _ => panic!("expected a parse error"),
    }
    assert!(m.exclude_spec.is_empty());
    assert!(m.parse_action_text("# only a comment\n\n", ActionLogLevel::Off).is_ok());
    match m.parse_action_text("\n# c\nname(x) exclude\n", ActionLogLevel::Off) {
        Err(ActionError::ParseError(msg)) => assert_eq!(msg, "Unknown test: name"),
        _ => panic!("expected a parse error"),
    }
}

#[test]
fn test_print_option() {
    let manager = HelpManager::new("test");
    let options = &["-test", "-other"];
    let args = &["<arg>", ""];
    let text = &["Test option", "Other option"];

    assert!(manager.print_option("test", "-test", options, args, text).is_ok());
    assert!(manager.print_option("test", "-nonexistent", options, args, text).is_err());
}

#[test]
fn help_text_of_options_and_sections() {
    let manager = HelpManager::new("prog");
    let options = &["-a", "-b"];
    let args = &["<n>", ""];
    let text = &["-a <n>\tdo a", "-b\tdo b"];
    assert_eq!(manager.print_option("o", "^-a", options, args, text).unwrap(), "-a <n>\tdo a\n");
    assert!(manager.print_option("o", "(", options, args, text).is_err());
    assert_eq!(manager.option_mismatch_message("-help-option", "x"), "prog: -help-option x does not match any prog option");

    let sections = &["build", "expert-options"];
    let lines = &["Build options:", "-b\tbuild", "Expert options:", "-x\texpert"];
    assert_eq!(manager.print_section("h", "build", sections, lines).unwrap(), "Build options:\n-b\tbuild\n");
    assert!(manager.print_section("h", "nope", sections, lines).is_err());
    assert_eq!(
        manager.print_section_names("", sections, lines),
        "SECTION NAME\t\tSECTION\nbuild\t\t\tBuild options:\nexpert-options\t\tExpert options:\n"
    );
    assert_eq!(manager.print_help_all("SYNTAX: {} x", &["a", "b"]), "SYNTAX: prog x\na\nb\n");
}

#[test]
fn file_limit_keeps_a_margin() {
    assert_eq!(file_limit_from(true, 1024, false), 1);
    assert_eq!(file_limit_from(false, 0, true), -1);
    assert_eq!(file_limit_from(false, 5, false), 1);
    assert_eq!(file_limit_from(false, 10, false), 1);
    assert_eq!(file_limit_from(false, 1024, false), 1024 - OPEN_FILE_MARGIN);
}

#[test]
fn test_get_nprocessors() {
    let result = libappimage::squashfs_tools::processors::get_nprocessors();
    assert!(result.is_ok());
    let count = result.unwrap();
    assert!(count > 0);
    assert!(count <= 1024);
}

#[test]
fn test_get_nprocessors_cached() {
    let first = libappimage::squashfs_tools::processors::get_nprocessors().unwrap();
    let second = libappimage::squashfs_tools::processors::get_nprocessors().unwrap();
    assert_eq!(first, second);
}

#[test]
fn reader_memory_is_checked_against_the_thread_counts() {
    let mut m = ReaderManager::new();
    m.set_read_block_threads(1);
    assert_eq!(m.get_reader_num(), 1);
    assert!(m.check_min_memory_with(64, 64, 17, 4).is_ok());
    assert_eq!(m.total_rblocks, 512);
    assert_eq!(m.total_wblocks, 512);
    assert_eq!(m.total_rmbytes, 64);
    let mut small = ReaderManager::new();
    small.set_read_block_threads(1);
    match small.check_min_memory_with(0, 64, 17, 4) {
        Err(libappimage::error::SquashError::Other(msg)) => assert_eq!(
            msg,
            "Insufficient memory for specified options! Please increase memory to 8 Mbytes (-mem option)"
        ),
        _ => panic!("expected too little memory"),
    }
    assert_eq!(small.total_rblocks, 0);
    if libappimage::squashfs_tools::processors::get_nprocessors().unwrap() <= 512 {
        assert!(m.check_min_memory(64, 64, 17).is_ok());
    }
    assert!(small.check_min_memory(0, 64, 17).is_err());
}

use libappimage::squashfs_tools::info::{DirEntry as InfoEntry, InfoManager, InfoSignal, InfoStep};
use libappimage::squashfs_tools::progress::DefaultProgressBar as SquashProgressBar;

#[test]
fn test_info_manager() {
    let mut manager: InfoManager<SquashProgressBar> = InfoManager::new();
    let progress_bar = SquashProgressBar::new();
    manager.set_progress_bar(progress_bar);
    let dir_entry = InfoEntry { name: "test.txt".to_string(), subpath: "test/dir".to_string() };
    manager.update_info(dir_entry);
    manager.disable_info();
    assert!(manager.current_entry.is_none());
}

#[test]
fn info_signals_report_then_dump() {
    let mut manager: InfoManager<SquashProgressBar> = InfoManager::new();
    manager.set_progress_bar(SquashProgressBar::new());
    manager.update_info(InfoEntry { name: "test.txt".to_string(), subpath: "test/dir".to_string() });
    assert_eq!(manager.print_filename().unwrap(), "test/dir/test.txt\n");
    let mut waiting = false;
    match manager.on_signal(&mut waiting, InfoSignal::Quit) {
        InfoStep::Report(Some(line)) => assert_eq!(line, "test/dir/test.txt\n"),
        _ => panic!("expected a report"),
    }
    assert!(waiting);
    assert!(matches!(manager.on_signal(&mut waiting, InfoSignal::Other), InfoStep::Ignore));
    assert!(waiting);
    assert!(matches!(manager.on_signal(&mut waiting, InfoSignal::Quit), InfoStep::DumpState));
    assert!(!waiting);
    assert!(matches!(manager.on_signal(&mut waiting, InfoSignal::Hup), InfoStep::DumpState));
    manager.update_info(InfoEntry { name: "top".to_string(), subpath: String::new() });
    assert_eq!(manager.print_filename().unwrap(), "/top\n");
    assert_eq!(
        manager.dump_state(),
        "Queues, caches and threads status dump\n======================================\n"
    );
    assert!(manager.progress_bar.as_ref().unwrap().enabled);
    manager.disable_info();
    assert!(manager.print_filename().is_none());
}

#[test]
fn test_column_width() {
    let width = Pager::get_column_width().unwrap();
    assert!(width > 0);
    assert!(width <= 1000);
}

use libappimage::squashfs_tools::pseudo::{Pseudo, PseudoDev};

#[test]
fn test_pseudo_creation() {
    let pseudo = Pseudo::new();
    assert_eq!(pseudo.names, 0);
    assert!(pseudo.current.is_none());
    assert!(pseudo.head.is_none());
}

#[test]
fn test_pseudo_add_entry() {
    let mut pseudo = Pseudo::new();
    let dev = PseudoDev::new_directory(0o755, 0, 0);
    pseudo.add_pseudo(dev, "/test", "/test").unwrap();

    assert_eq!(pseudo.names, 1);
    assert!(pseudo.head.is_some());
    assert_eq!(pseudo.head.as_ref().unwrap().name, "test");
}

#[test]
fn test_pseudo_add_nested() {
    let mut pseudo = Pseudo::new();
    let dev = PseudoDev::new_directory(0o755, 0, 0);
    pseudo.add_pseudo(dev, "/test/dir", "/test/dir").unwrap();

    assert_eq!(pseudo.names, 1);
    assert!(pseudo.head.is_some());
    assert_eq!(pseudo.head.as_ref().unwrap().name, "test");
    assert!(pseudo.head.as_ref().unwrap().pseudo.is_some());
    assert_eq!(pseudo.head.as_ref().unwrap().pseudo.as_ref().unwrap().names, 1);
}

#[test]
fn pseudo_entries_stay_sorted_and_clashes_are_refused() {
    let mut pseudo = Pseudo::new();
    pseudo.add_pseudo(PseudoDev::new_regular(0o644, 0, 0), "/b", "/b").unwrap();
    pseudo.add_pseudo(PseudoDev::new_regular(0o644, 0, 0), "a", "a").unwrap();
    pseudo.add_pseudo(PseudoDev::new_directory(0o755, 1, 1), "/c/./d//e", "/c/d/e").unwrap();
    assert_eq!(pseudo.names, 3);
    let mut names = Vec::new();
    while let Some(e) = pseudo.readdir() {
        names.push(e.name.clone());
    }
    assert_eq!(names, vec!["a", "b", "c"]);
    assert!(pseudo.current.is_none());
    // The same definition again is accepted; a different one is not.
    assert!(pseudo.add_pseudo(PseudoDev::new_regular(0o644, 0, 0), "/b", "/b").is_ok());
    match pseudo.add_pseudo(PseudoDev::new_regular(0o600, 0, 0), "/b", "/b") {
        Err(libappimage::error::SquashError::Other(m)) => {
            assert_eq!(m, "/b already exists as a different pseudo definition")
        }
        _ => panic!("expected a clash"),
    }
    let c = pseudo.head.as_ref().unwrap().next.as_ref().unwrap().next.as_ref().unwrap();
    assert_eq!(c.name, "c");
    let d = c.pseudo.as_ref().unwrap().head.as_ref().unwrap();
    assert_eq!(d.name, "d");
    assert_eq!(d.pathname, "c/d");
    let e = d.pseudo.as_ref().unwrap().head.as_ref().unwrap();
    assert_eq!(e.pathname, "c/d/e");
    assert_eq!(e.dev.as_ref().unwrap().stat.mode, 0o755 | 0o040000);
    assert!(pseudo.subdir("a").is_none());
    let mut root = Pseudo::new();
    root.add_pseudo(PseudoDev::new_directory(0o755, 0, 0), "/", "/").unwrap();
    assert_eq!(root.head.as_ref().unwrap().name, "/");
}

use libappimage::squashfs_tools::mksquashfs::{DirEntry as TreeEntry, FileType as TreeFileType, InodeInfo};
use libappimage::squashfs_tools::sort::{parse_sort_line, SortAction, SortListPhase, SortListState, SortManager, StatOutcome};

fn tree_entry(name: &str) -> TreeEntry {
    TreeEntry {
        name: name.to_string(),
        source_name: None,
        nonstandard_pathname: None,
        inode: InodeInfo::new(TreeFileType::Regular),
    }
}

#[test]
fn test_sort_manager_creation() {
    let manager = SortManager::new();
    assert_eq!(manager.sort_info_list.len(), 65536);
    assert_eq!(manager.priority_list.len(), 65536);
    assert!(manager.mkisofs_style.is_none());
    assert_eq!(manager.hardlnk_count, 0);
}

#[test]
fn test_priority_range() {
    let mut manager = SortManager::new();
    manager.add_priority_list(tree_entry("test"), 0);
    assert!(!manager.priority_list[32768].is_empty());
}

#[test]
fn sort_priorities_are_looked_up_and_ordered() {
    let mut manager = SortManager::new();
    assert_eq!(manager.get_priority(1, 70000, 5), 5);
    manager.add_sort_info(1, 70000, 10);
    manager.add_sort_info(2, 70000, 20);
    manager.add_sort_info(1, 70000, 30);
    assert_eq!(manager.get_priority(1, 70000, 5), 30);
    assert_eq!(manager.get_priority(2, 70000, 5), 20);
    assert_eq!(manager.get_priority(1, 4464, 5), 5);
    manager.add_priority_list(tree_entry("low"), -32768);
    manager.add_priority_list(tree_entry("high"), 32767);
    manager.add_priority_list(tree_entry("mid1"), 0);
    manager.add_priority_list(tree_entry("mid2"), 0);
    let order: Vec<(i32, String)> =
        manager.files_in_priority_order().into_iter().map(|(p, e)| (p, e.dir.name)).collect();
    assert_eq!(
        order,
        vec![(32767, "high".to_string()), (0, "mid2".to_string()), (0, "mid1".to_string()), (-32768, "low".to_string())]
    );
    assert!(manager.priority_list[32768].is_empty());
    assert_eq!(SortManager::sort_entry_path("dir/*"), "dir");
    assert!(manager.is_direct_entry("../x"));
    assert!(!manager.is_direct_entry("x"));
    match manager.settle_sort_entry("x", 2) {
        Err(libappimage::error::SquashError::Other(m)) => assert_eq!(
            m,
            "Ambiguous sortlist entry \"x\"\nIt maps to more than one source entry! Please use an absolute path."
        ),
        _ => panic!("expected an ambiguous entry"),
    }
    assert_eq!(manager.mkisofs_style, Some(false));
}

#[test]
fn sort_file_lines_are_read() {
    assert!(parse_sort_line("s", "   ").unwrap().is_none());
    assert!(parse_sort_line("s", "# comment 1").unwrap().is_none());
    assert_eq!(parse_sort_line("s", "  file 10 ").unwrap(), Some(("file".to_string(), 10)));
    assert_eq!(parse_sort_line("s", "file\t-32768").unwrap(), Some(("file".to_string(), -32768)));
    match parse_sort_line("s", "file") {
        Err(libappimage::error::SquashError::Other(m)) => {
            assert_eq!(m, "Invalid priority in sort file \"file\": cannot parse integer from empty string")
        }
        _ => panic!("expected an error"),
    }
    match parse_sort_line("s", "file  3") {
        Err(libappimage::error::SquashError::Other(m)) => {
            assert_eq!(m, "Invalid priority in sort file \"file\": invalid digit found in string")
        }
        _ => panic!("expected an error"),
    }
    match parse_sort_line("s", "file 40000") {
        Err(libappimage::error::SquashError::Other(m)) => assert_eq!(
            m,
            "Sort file \"file\", entry \"file 40000\" has priority outside range of -32767:32768"
        ),
        _ => panic!("expected an error"),
    }
    let long = "a".repeat(16385);
    match parse_sort_line("s", &long) {
        Err(libappimage::error::SquashError::Other(m)) => {
            assert_eq!(m, "Line too long when reading sort file \"s\", larger than 16384 bytes")
        }
        _ => panic!("expected an error"),
    }
}

#[test]
fn interrupts_warn_once_then_restore() {
    let mut interrupted = false;
    assert_eq!(on_restore_signal(&mut interrupted, SIGINT), RestoreStep::Warn);
    assert!(interrupted);
    assert_eq!(on_restore_signal(&mut interrupted, SIGTERM), RestoreStep::Restore);
    let mut fresh = false;
    assert_eq!(on_restore_signal(&mut fresh, SIGUSR1), RestoreStep::Restore);
    assert!(!fresh);
    assert_eq!(
        restore_warning_text(),
        "Interrupting will restore original filesystem!\nInterrupt again to quit\n"
    );
}

#[test]
fn signal_waits_end_on_a_signal_or_a_failure() {
    let mut waiting = true;
    assert!(after_wait(&mut waiting, WaitOutcome::Interrupted).is_none());
    assert!(waiting);
    assert!(after_wait(&mut waiting, WaitOutcome::TimedOut).is_none());
    assert!(!waiting);
    assert_eq!(after_wait(&mut waiting, WaitOutcome::Signal(3)).unwrap().unwrap(), 3);
    match after_wait(&mut waiting, WaitOutcome::Failed("bad".to_string())) {
        Some(Err(libappimage::error::SquashError::Other(m))) => assert_eq!(m, "sigtimedwait/sigwaitinfo failed: bad"),
        _ => panic!("expected a failure"),
    }
}

#[test]
fn action_files_that_never_end_are_recognised() {
    assert!(ActionManager::reading_ends("# c\nname(x) exclude\n"));
    assert!(ActionManager::reading_ends("\n\n"));
    assert!(!ActionManager::reading_ends("first\\\nx"));
    assert!(!ActionManager::reading_ends("# c\\\ny \\\n"));
    assert!(ActionManager::reading_ends("# c\ny \\\n"));
    assert!(!ActionManager::reading_ends("a \\\nb"));
    assert!(ActionManager::reading_ends("a\nb \\\n"));
    assert!(!ActionManager::reading_ends("a\\\nb \\\n"));
}

#[test]
fn duplicate_fragments_are_found_along_the_chain() {
    let processor = FragmentProcessor::new(DefaultCompressor::new(Kind::Gzip), 4096, false, 0);
    let data = vec![7u8, 8, 9];
    let buffer = |d: &Vec<u8>| FileBuffer {
        data: d.clone(),
        size: 3,
        file_size: 3,
        checksum: 0,
        fragment: None,
        duplicate: false,
        dupl_start: None,
    };
    let info = |index: usize| FileInfo {
        fragment: Fragment { index, offset: 2, size: 3, start_block: 0, checksum: 0 },
        fragment_checksum: 0,
        have_frag_checksum: false,
    };
    // A block that holds the data at offset 2, and one that does not.
    let holds = vec![0u8, 0, 7, 8, 9];
    let other = vec![1u8, 1, 1, 1, 1];
    let cands = vec![info(0), info(1)];

    // The first candidate holds the data.
    let r = processor.process_fragment(buffer(&data), &cands, &[holds.clone(), other.clone()]);
    assert!(r.duplicate);
    assert_eq!(r.dupl_start, Some(cands[0]));

    // Only the last candidate holds it.
    let r = processor.process_fragment(buffer(&data), &cands, &[other.clone(), holds.clone()]);
    assert!(r.duplicate);
    assert_eq!(r.dupl_start, Some(cands[1]));

    // None holds it: the duplicates start at the first candidate.
    let r = processor.process_fragment(buffer(&data), &cands, &[other.clone(), other.clone()]);
    assert!(!r.duplicate);
    assert_eq!(r.dupl_start, Some(cands[0]));

    // No candidates.
    let r = processor.process_fragment(buffer(&data), &[], &[]);
    assert!(!r.duplicate);
    assert_eq!(r.dupl_start, None);
}

#[test]
fn timestamps_keep_the_low_32_bits() {
    assert_eq!(timestamp_of_seconds(1_700_000_000), 1_700_000_000);
    assert_eq!(timestamp_of_seconds(0x1_0000_0005), 5);
    assert_eq!(timestamp_of_seconds(u64::MAX), u32::MAX);
}

#[test]
fn readahead_gives_back_what_was_read_ahead() {
    let mut cache = ReadaheadCache::new();
    // Nothing is held before the table is allocated.
    assert_eq!(cache.get_readahead(0, 4), None);
    assert_eq!(cache.get_readahead(0, 0), Some(vec![]));

    // Bytes 100..20100 of a file, across three blocks.
    let data: Vec<u8> = (0..20000u32).map(|i| (i % 251) as u8).collect();
    cache.store_readahead(100, &data);
    let at = |p: usize| data[p - 100];

    // The start of a buffer.
    assert_eq!(cache.get_readahead(100, 50), Some((100..150).map(at).collect::<Vec<u8>>()));
    // Those bytes are gone now.
    assert_eq!(cache.get_readahead(100, 10), None);
    // The middle of a buffer.
    assert_eq!(cache.get_readahead(1000, 24), Some((1000..1024).map(at).collect::<Vec<u8>>()));
    // Across the end of the first block, into the second.
    assert_eq!(cache.get_readahead(8000, 400), Some((8000..8400).map(at).collect::<Vec<u8>>()));
    // Bytes around those taken out are still there.
    assert_eq!(cache.get_readahead(150, 850), Some((150..1000).map(at).collect::<Vec<u8>>()));
    assert_eq!(cache.get_readahead(8400, 10), Some((8400..8410).map(at).collect::<Vec<u8>>()));
    // A range that runs into bytes taken out: the bytes before the gap go.
    assert_eq!(cache.get_readahead(7990, 20), None);
    assert_eq!(cache.get_readahead(7990, 5), None);
    // Past the end of what was read ahead.
    assert_eq!(cache.get_readahead(20090, 20), None);
    assert_eq!(cache.get_readahead(20095, 5), None);
    assert_eq!(cache.get_readahead(20080, 5), Some((20080..20085).map(at).collect::<Vec<u8>>()));
}

#[test]
fn sort_entries_are_looked_up_step_by_step() {
    // An entry relative to the source directories, held by the second of
    // three.
    let mut m = SortManager::new();
    let st = SortListState::new("dir/*", 7, 3);
    let (st, a) = m.add_sort_step(st, StatOutcome::NotFound);
    assert_eq!(st.path, "dir");
    assert!(matches!(a, SortAction::StatInSource(0)));
    let (st, a) = m.add_sort_step(st, StatOutcome::NotFound);
    assert!(matches!(a, SortAction::StatInSource(1)));
    let (st, a) = m.add_sort_step(st, StatOutcome::Found { dev: 3, ino: 99 });
    assert!(matches!(a, SortAction::StatInSource(2)));
    assert_eq!(st.found_count, 1);
    let (st, a) = m.add_sort_step(st, StatOutcome::NotFound);
    assert!(matches!(a, SortAction::Done(Ok(true))));
    assert_eq!(st.phase, SortListPhase::Finished);
    assert_eq!(m.get_priority(3, 99, 0), 7);
    assert_eq!(m.mkisofs_style, Some(false));

    // Held by two source directories: ambiguous.
    let mut m = SortManager::new();
    let st = SortListState::new("f", 1, 2);
    let (st, _) = m.add_sort_step(st, StatOutcome::NotFound);
    let (st, _) = m.add_sort_step(st, StatOutcome::Found { dev: 1, ino: 1 });
    let (_, a) = m.add_sort_step(st, StatOutcome::Found { dev: 1, ino: 2 });
    match a {
        SortAction::Done(Err(libappimage::error::SquashError::Other(msg))) => assert_eq!(
            msg,
            "Ambiguous sortlist entry \"f\"\nIt maps to more than one source entry! Please use an absolute path."
        ),
        _ => panic!("expected an ambiguous entry"),
    }

    // Held by no source directory but by the working directory: the sort
    // file names entries that way, and the entry is looked up again as it
    // stands.
    let mut m = SortManager::new();
    let st = SortListState::new("g", 4, 1);
    let (st, _) = m.add_sort_step(st, StatOutcome::NotFound);
    let (st, a) = m.add_sort_step(st, StatOutcome::NotFound);
    assert!(matches!(a, SortAction::Stat(ref p) if p == "g"));
    assert_eq!(st.phase, SortListPhase::Fallback);
    let (st, a) = m.add_sort_step(st, StatOutcome::Found { dev: 5, ino: 6 });
    assert!(matches!(a, SortAction::WarnMkisofs));
    assert_eq!(m.mkisofs_style, Some(true));
    let (st, a) = m.add_sort_step(st, StatOutcome::NotFound);
    assert!(matches!(a, SortAction::Stat(ref p) if p == "g"));
    let (_, a) = m.add_sort_step(st, StatOutcome::Found { dev: 5, ino: 6 });
    assert!(matches!(a, SortAction::Done(Ok(true))));
    assert_eq!(m.get_priority(5, 6, 0), 4);

    // An absolute entry whose lookup fails.
    let mut m = SortManager::new();
    let (st, a) = m.add_sort_step(SortListState::new("/x", 2, 0), StatOutcome::NotFound);
    assert!(matches!(a, SortAction::Stat(ref p) if p == "/x"));
    let (_, a) = m.add_sort_step(st, StatOutcome::Failed("denied".to_string()));
    match a {
        SortAction::Done(Err(libappimage::error::SquashError::Other(msg))) => {
            assert_eq!(msg, "Failed to stat sortlist entry: denied")
        }
        _ => panic!("expected a lookup error"),
    }
}
