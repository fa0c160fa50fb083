use vstd::prelude::*;

verus! {

/// Kinds of files in the tree being archived.
#[derive(Debug, Clone, Copy, PartialEq, Eq, Structural)]
pub enum FileType {
    Regular,
    Directory,
    Symlink,
    CharacterDevice,
    BlockDevice,
    Fifo,
    Socket,
}

/// Where the tail of a file lies in a fragment block.
#[derive(Debug, Clone, Copy)]
pub struct Fragment {
    /// Fragment block index.
    pub index: u32,
    /// Offset within the fragment block.
    pub offset: i32,
    /// Size of the tail.
    pub size: i32,
}

/// What is known of the data of a file written to the image.
#[derive(Debug)]
pub struct FileInfo {
    /// Total file size.
    pub file_size: i64,
    /// Bytes written for it.
    pub bytes: i64,
    /// Starting block.
    pub start: i64,
    /// Number of sparse blocks.
    pub sparse: i64,
    /// Sizes of its blocks.
    pub block_list: Vec<u32>,
    /// Next file of the same fragment size.
    pub frag_next: Option<Box<FileInfo>>,
    /// Next file of the same block size.
    pub block_next: Option<Box<FileInfo>>,
    /// Its fragment, if its tail is in one.
    pub fragment: Option<Fragment>,
    /// The file it duplicates, if any.
    pub dup: Option<DupInfo>,
    /// Number of blocks.
    pub blocks: u32,
    /// Checksum of its blocks.
    pub checksum: u16,
    /// Checksum of its fragment.
    pub fragment_checksum: u16,
    /// Whether `fragment_checksum` is known.
    pub have_frag_checksum: bool,
    /// Whether `checksum` is known.
    pub have_checksum: bool,
}

/// A file found to duplicate another.
#[derive(Debug)]
pub struct DupInfo {
    /// The file duplicated.
    pub file: Box<FileInfo>,
    /// The file whose fragment is shared, if any.
    pub frag: Option<Box<FileInfo>>,
    /// The next duplicate.
    pub next: Option<Box<DupInfo>>,
}

/// A file taken from a tar archive.
#[derive(Debug)]
pub struct TarFile {
    /// Its data.
    pub file: Option<Box<FileInfo>>,
    /// The next file of the archive.
    pub next: Option<Box<TarFile>>,
}

/// What is kept of an inode of the tree being archived.
#[derive(Debug, Clone)]
pub struct InodeInfo {
    /// File type.
    pub file_type: FileType,
    /// SquashFS inode number.
    pub inode: u64,
    /// Inode number.
    pub inode_number: u32,
    /// Number of hard links.
    pub nlink: u32,
    /// Whether this is a made-up root directory.
    pub dummy_root_dir: bool,
    /// Whether this is an entry of the root.
    pub root_entry: bool,
    /// Whether fragments are not used.
    pub no_fragments: bool,
    /// Whether fragments are always used.
    pub always_use_fragments: bool,
    /// Whether duplicates are not looked for.
    pub no_dedup: bool,
    /// Whether the tail is kept out of fragments.
    pub no_frag: bool,
    /// Whether it comes from a tar archive.
    pub tarfile: bool,
    /// Whether it has been read.
    pub read: bool,
    /// Whether it has been scanned.
    pub scanned: bool,
    /// Target of a symbolic link.
    pub symlink: Option<String>,
}

impl InodeInfo {
    /// A fresh inode of type `file_type` with one link.
    pub fn new(file_type: FileType) -> (r: Self)
        ensures
            r.file_type == file_type,
            r.inode == 0 && r.inode_number == 0 && r.nlink == 1,
            !r.dummy_root_dir && !r.root_entry && !r.no_fragments && !r.always_use_fragments,
            !r.no_dedup && !r.no_frag && !r.tarfile && !r.read && !r.scanned,
            r.symlink is None,
    {
        InodeInfo {
            file_type,
            inode: 0,
            inode_number: 0,
            nlink: 1,
            dummy_root_dir: false,
            root_entry: false,
            no_fragments: false,
            always_use_fragments: false,
            no_dedup: false,
            no_frag: false,
            tarfile: false,
            read: false,
            scanned: false,
            symlink: None,
        }
    }
}

/// An entry of a directory of the tree being archived.
#[derive(Debug)]
pub struct DirEntry {
    /// Name of the entry.
    pub name: String,
    /// Name it has in the source, where that differs.
    pub source_name: Option<String>,
    /// Pathname it has where it is not the standard one.
    pub nonstandard_pathname: Option<String>,
    /// Its inode.
    pub inode: InodeInfo,
}

/// A directory of the tree being archived.
#[derive(Debug)]
pub struct DirInfo {
    /// Pathname of the directory.
    pub pathname: String,
    /// Path within the image.
    pub subpath: Option<String>,
    /// Number of entries.
    pub count: u32,
    /// Number of subdirectories.
    pub directory_count: u32,
    /// Depth in the tree.
    pub depth: u32,
    /// Whether it is excluded.
    pub excluded: bool,
    /// Whether it needs a large directory inode.
    pub dir_is_ldir: bool,
    /// Its entries, in the order they were added.
    pub entries: Vec<DirEntry>,
}

impl DirInfo {
    /// An empty directory.
    pub fn new(pathname: String, subpath: Option<String>, depth: u32) -> (r: Self)
        ensures
            r.pathname == pathname && r.subpath == subpath && r.depth == depth,
            r.count == 0 && r.directory_count == 0,
            !r.excluded && !r.dir_is_ldir,
            r.entries@.len() == 0,
    {
        DirInfo {
            pathname,
            subpath,
            count: 0,
            directory_count: 0,
            depth,
            excluded: false,
            dir_is_ldir: false,
            entries: Vec::new(),
        }
    }

    /// Add an entry: it is counted, and counted as a subdirectory where it
    /// is one.
    pub fn add_entry(&mut self, entry: DirEntry)
        requires
            old(self).count < u32::MAX,
            old(self).directory_count < u32::MAX,
        ensures
            final(self).count == old(self).count + 1,
            final(self).directory_count == old(self).directory_count + (if entry.inode.file_type
                == FileType::Directory {
                1int
            } else {
                0int
            }),
            final(self).entries@ == old(self).entries@.push(entry),
            final(self).pathname == old(self).pathname,
            final(self).subpath == old(self).subpath,
            final(self).depth == old(self).depth,
            final(self).excluded == old(self).excluded,
            final(self).dir_is_ldir == old(self).dir_is_ldir,
    {
        self.count = self.count + 1;
        if entry.inode.file_type == FileType::Directory {
            self.directory_count = self.directory_count + 1;
        }
        self.entries.push(entry);
    }
}

} // verus!
