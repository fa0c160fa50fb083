use vstd::prelude::*;
use crate::error::{io_error_text, SquashError};
use crate::text::{concat, push_str, str_eq};

verus! {

/// Compression types supported by SquashFS.
#[derive(Debug, Clone, Copy, PartialEq, Eq, Structural)]
pub enum CompressionType {
    NoCompression,
    Gzip,
    Lzma,
    Lzo,
    Xz,
    Lz4,
    Zstd,
}

/// The number by which `CompressionType::id` identifies a compression type.
pub open spec fn type_id(t: CompressionType) -> int {
    match t {
        CompressionType::Gzip => 1,
        CompressionType::Lzma => 2,
        CompressionType::Lzo => 3,
        CompressionType::Lz4 => 4,
        CompressionType::Xz => 5,
        CompressionType::Zstd => 6,
        CompressionType::NoCompression => 0,
    }
}

/// The name of a compression type.
pub open spec fn type_name_of(t: CompressionType) -> Seq<char> {
    match t {
        CompressionType::Gzip => "gzip"@,
        CompressionType::Lzma => "lzma"@,
        CompressionType::Lzo => "lzo"@,
        CompressionType::Lz4 => "lz4"@,
        CompressionType::Xz => "xz"@,
        CompressionType::Zstd => "zstd"@,
        CompressionType::NoCompression => "none"@,
    }
}

impl CompressionType {
    /// The number that identifies this compression type.
    pub fn id(&self) -> (r: i32)
        ensures
            r == type_id(*self),
    {
        match self {
            CompressionType::Gzip => 1,
            CompressionType::Lzma => 2,
            CompressionType::Lzo => 3,
            CompressionType::Lz4 => 4,
            CompressionType::Xz => 5,
            CompressionType::Zstd => 6,
            CompressionType::NoCompression => 0,
        }
    }

    /// The name of this compression type.
    pub fn name(&self) -> (r: &'static str)
        ensures
            r@ == type_name_of(*self),
    {
        proof {
            reveal_strlit("gzip");
            reveal_strlit("lzma");
            reveal_strlit("lzo");
            reveal_strlit("lz4");
            reveal_strlit("xz");
            reveal_strlit("zstd");
            reveal_strlit("none");
        }
        match self {
            CompressionType::Gzip => "gzip",
            CompressionType::Lzma => "lzma",
            CompressionType::Lzo => "lzo",
            CompressionType::Lz4 => "lz4",
            CompressionType::Xz => "xz",
            CompressionType::Zstd => "zstd",
            CompressionType::NoCompression => "none",
        }
    }
}

/// Errors of compressors.
#[derive(Debug)]
pub enum CompressorError {
    InitializationError(String),
    CompressionError(String),
    DecompressionError(String),
    OptionsError(String),
    IOError(std::io::Error),
}

impl CompressorError {
    /// The message that describes the error.
    pub fn message(&self) -> (r: String)
        ensures
            match self {
                CompressorError::InitializationError(m) => r@ == "Initialization error: "@ + m@,
                CompressorError::CompressionError(m) => r@ == "Compression error: "@ + m@,
                CompressorError::DecompressionError(m) => r@ == "Decompression error: "@ + m@,
                CompressorError::OptionsError(m) => r@ == "Options error: "@ + m@,
                CompressorError::IOError(_) => exists|t: Seq<char>| r@ == "IO error: "@ + t,
            },
    {
        match self {
            CompressorError::InitializationError(m) => concat("Initialization error: ", m.as_str()),
            CompressorError::CompressionError(m) => concat("Compression error: ", m.as_str()),
            CompressorError::DecompressionError(m) => concat("Decompression error: ", m.as_str()),
            CompressorError::OptionsError(m) => concat("Options error: ", m.as_str()),
            CompressorError::IOError(e) => {
                let t = io_error_text(e);
                concat("IO error: ", t.as_str())
            },
        }
    }
}

/// Interface of a compressor.
pub trait Compressor {
    /// The name of the compressor.
    fn name(&self) -> &'static str;

    /// The compression type.
    fn compression_type(&self) -> CompressionType;

    /// Whether this compressor is supported.
    fn supported(&self) -> bool;

    /// Prepare the compressor for use.
    fn init(&mut self) -> Result<(), SquashError>;

    /// Compress a block of data.
    fn compress(&self, data: &[u8], block_size: usize) -> Result<Vec<u8>, SquashError>;

    /// Decompress a block of data.
    fn decompress(&self, data: &[u8], expected_size: usize) -> Result<Vec<u8>, SquashError>;

    /// The default block size of this compressor.
    fn default_block_size(&self) -> usize;
}

/// Default block size of compressors: 128 KiB.
pub const DEFAULT_BLOCK_SIZE: usize = 131072;

/// A compressor that stores data as it is and knows no algorithm.
#[derive(Debug, Clone, Copy)]
pub struct DefaultCompressor {
    pub compression_type: CompressionType,
}

impl DefaultCompressor {
    /// A compressor for the given type.
    pub fn new(compression_type: CompressionType) -> (r: Self)
        ensures
            r.compression_type == compression_type,
    {
        DefaultCompressor { compression_type }
    }
}

/// Whether `r` is the error `SquashError::Compression` with message `m`.
pub open spec fn is_compression_error<T>(r: Result<T, SquashError>, m: Seq<char>) -> bool {
    r matches Err(SquashError::Compression(s)) && s@ == m
}

impl Compressor for DefaultCompressor {
    fn name(&self) -> (r: &'static str)
        ensures
            r@ == type_name_of(self.compression_type),
    {
        self.compression_type.name()
    }

    fn compression_type(&self) -> (r: CompressionType)
        ensures
            r == self.compression_type,
    {
        self.compression_type
    }

    fn supported(&self) -> (r: bool)
        ensures
            r == (self.compression_type != CompressionType::NoCompression),
    {
        !matches!(self.compression_type, CompressionType::NoCompression)
    }

    fn init(&mut self) -> (r: Result<(), SquashError>)
        ensures
            r is Ok,
            *final(self) == *old(self),
    {
        Ok(())
    }

    fn compress(&self, data: &[u8], block_size: usize) -> (r: Result<Vec<u8>, SquashError>)
        ensures
            self.compression_type == CompressionType::NoCompression ==> (r matches Ok(v) && v@
                == data@),
            self.compression_type != CompressionType::NoCompression ==> is_compression_error(
                r,
                "Compression not implemented"@,
            ),
    {
        match self.compression_type {
            CompressionType::NoCompression => Ok(vstd::slice::slice_to_vec(data)),
            _ => Err(SquashError::Compression(String::from_str("Compression not implemented"))),
        }
    }

    fn decompress(&self, data: &[u8], expected_size: usize) -> (r: Result<Vec<u8>, SquashError>)
        ensures
            self.compression_type == CompressionType::NoCompression ==> (r matches Ok(v) && v@
                == data@),
            self.compression_type != CompressionType::NoCompression ==> is_compression_error(
                r,
                "Decompression not implemented"@,
            ),
    {
        match self.compression_type {
            CompressionType::NoCompression => Ok(vstd::slice::slice_to_vec(data)),
            _ => Err(SquashError::Compression(String::from_str("Decompression not implemented"))),
        }
    }

    fn default_block_size(&self) -> (r: usize)
        ensures
            r == DEFAULT_BLOCK_SIZE,
    {
        DEFAULT_BLOCK_SIZE
    }
}

/// A compressor for the given type.
pub fn create_compressor(compression_type: CompressionType) -> (r: DefaultCompressor)
    ensures
        r.compression_type == compression_type,
{
    DefaultCompressor::new(compression_type)
}

/// The compression type that a super block records under `id`.
pub open spec fn compression_type_of_id(id: u16) -> CompressionType {
    if id == 1 {
        CompressionType::Gzip
    } else if id == 2 {
        CompressionType::Lzma
    } else if id == 3 {
        CompressionType::Lzo
    } else if id == 4 {
        CompressionType::Xz
    } else if id == 5 {
        CompressionType::Lz4
    } else if id == 6 {
        CompressionType::Zstd
    } else {
        CompressionType::NoCompression
    }
}

/// The number under which a super block records a compression type.
pub open spec fn compression_id_of(t: CompressionType) -> u16 {
    match t {
        CompressionType::NoCompression => 0,
        CompressionType::Gzip => 1,
        CompressionType::Lzma => 2,
        CompressionType::Lzo => 3,
        CompressionType::Xz => 4,
        CompressionType::Lz4 => 5,
        CompressionType::Zstd => 6,
    }
}

/// The compression type recorded under `id`; unknown numbers mean none.
pub fn get_compression_type(id: u16) -> (r: CompressionType)
    ensures
        r == compression_type_of_id(id),
{
    match id {
        0 => CompressionType::NoCompression,
        1 => CompressionType::Gzip,
        2 => CompressionType::Lzma,
        3 => CompressionType::Lzo,
        4 => CompressionType::Xz,
        5 => CompressionType::Lz4,
        6 => CompressionType::Zstd,
        _ => CompressionType::NoCompression,
    }
}

/// The number under which a compression type is recorded.
pub fn get_compression_id(compression_type: CompressionType) -> (r: u16)
    ensures
        r == compression_id_of(compression_type),
{
    match compression_type {
        CompressionType::NoCompression => 0,
        CompressionType::Gzip => 1,
        CompressionType::Lzma => 2,
        CompressionType::Lzo => 3,
        CompressionType::Xz => 4,
        CompressionType::Lz4 => 5,
        CompressionType::Zstd => 6,
    }
}

/// Recording a compression type and reading it back gives the same type, and
/// every number up to 6 is the number of the type it is read as.
pub proof fn law_compression_id_roundtrip(t: CompressionType, id: u16)
    ensures
        compression_type_of_id(compression_id_of(t)) == t,
        id <= 6 ==> compression_id_of(compression_type_of_id(id)) == id,
        id > 6 ==> compression_type_of_id(id) == CompressionType::NoCompression,
{
}

/// Streaming interface of a compressor, for users to implement.
pub trait CompressorStream {
    /// Compress `size` bytes of `src` into `dest`; the number of bytes written.
    fn compress(&mut self, dest: &mut [u8], src: &[u8], size: usize, block_size: usize) -> Result<
        usize,
        CompressorError,
    >;

    /// Decompress `size` bytes of `src` into `dest`; the number of bytes written.
    fn uncompress(
        &mut self,
        dest: &mut [u8],
        src: &[u8],
        size: usize,
        block_size: usize,
    ) -> Result<usize, CompressorError>;
}

/// A compressor known to the manager: its name, its type and whether it can
/// be used.
#[derive(Debug, Clone, Copy)]
pub struct CompressorEntry {
    pub name: &'static str,
    pub compression_type: CompressionType,
    pub supported: bool,
}

impl CompressorEntry {
    /// The name of the compressor.
    pub fn name(&self) -> (r: &'static str)
        ensures
            r@ == self.name@,
    {
        self.name
    }

    /// The compression type of the compressor.
    pub fn compression_type(&self) -> (r: CompressionType)
        ensures
            r == self.compression_type,
    {
        self.compression_type
    }

    /// Whether the compressor can be used.
    pub fn supported(&self) -> (r: bool)
        ensures
            r == self.supported,
    {
        self.supported
    }
}

/// Whether `e` is the compressor named `name` of type `t`, usable or not.
pub open spec fn entry_is(e: CompressorEntry, name: Seq<char>, t: CompressionType, supported: bool) -> bool {
    e.name@ == name && e.compression_type == t && e.supported == supported
}

/// The compressors a manager knows, in order of preference.
pub struct CompressorManager {
    pub compressors: Vec<CompressorEntry>,
}

/// Index of the first entry named `name`, if there is one.
pub open spec fn first_named(s: Seq<CompressorEntry>, name: Seq<char>, i: int) -> bool {
    &&& 0 <= i < s.len()
    &&& s[i].name@ == name
    &&& forall|j: int| 0 <= j < i ==> s[j].name@ != name
}

/// Index of the first entry whose type has number `id`, if there is one.
pub open spec fn first_with_id(s: Seq<CompressorEntry>, id: int, i: int) -> bool {
    &&& 0 <= i < s.len()
    &&& type_id(s[i].compression_type) == id
    &&& forall|j: int| 0 <= j < i ==> type_id(s[j].compression_type) != id
}

/// Index of the first usable entry named `name`, if there is one.
pub open spec fn first_supported_named(s: Seq<CompressorEntry>, name: Seq<char>, i: int) -> bool {
    &&& 0 <= i < s.len()
    &&& s[i].name@ == name && s[i].supported
    &&& forall|j: int| 0 <= j < i ==> !(s[j].name@ == name && s[j].supported)
}

/// The line that lists compressor `e` in the usage text.
pub open spec fn usage_line(e: CompressorEntry, def_comp: Seq<char>) -> Seq<char> {
    if e.supported {
        "\t"@ + e.name@ + (if e.name@ == def_comp {
            " (default)"@
        } else {
            Seq::empty()
        }) + "\n"@
    } else {
        Seq::empty()
    }
}

/// The lines that list the usable compressors of `s`, in order.
pub open spec fn usage_lines(s: Seq<CompressorEntry>, def_comp: Seq<char>) -> Seq<char>
    decreases s.len(),
{
    if s.len() == 0 {
        Seq::empty()
    } else {
        usage_lines(s.drop_last(), def_comp) + usage_line(s.last(), def_comp)
    }
}

/// The heading of the usage text.
pub open spec fn usage_heading() -> Seq<char> {
    "\nCompressors available and compressor specific options:\n\n"@
}

/// The line that states which compressor was chosen.
pub open spec fn options_line(prefix: Seq<char>, prog_name: Seq<char>, name: Seq<char>) -> Seq<char> {
    prog_name + prefix + name + "\". Options supported: \n"@
}

impl CompressorManager {
    /// The known compressors: gzip, lzo, lz4, xz, zstd and lzma, which can be
    /// used, and a last entry "unknown" that stands for every other name.
    pub fn new() -> (r: Self)
        ensures
            r.compressors@.len() == 7,
            entry_is(r.compressors@[0], "gzip"@, CompressionType::Gzip, true),
            entry_is(r.compressors@[1], "lzo"@, CompressionType::Lzo, true),
            entry_is(r.compressors@[2], "lz4"@, CompressionType::Lz4, true),
            entry_is(r.compressors@[3], "xz"@, CompressionType::Xz, true),
            entry_is(r.compressors@[4], "zstd"@, CompressionType::Zstd, true),
            entry_is(r.compressors@[5], "lzma"@, CompressionType::Lzma, true),
            entry_is(r.compressors@[6], "unknown"@, CompressionType::NoCompression, false),
    {
        let mut compressors: Vec<CompressorEntry> = Vec::new();
        compressors.push(
            CompressorEntry { name: "gzip", compression_type: CompressionType::Gzip, supported: true },
        );
        compressors.push(
            CompressorEntry { name: "lzo", compression_type: CompressionType::Lzo, supported: true },
        );
        compressors.push(
            CompressorEntry { name: "lz4", compression_type: CompressionType::Lz4, supported: true },
        );
        compressors.push(
            CompressorEntry { name: "xz", compression_type: CompressionType::Xz, supported: true },
        );
        compressors.push(
            CompressorEntry { name: "zstd", compression_type: CompressionType::Zstd, supported: true },
        );
        compressors.push(
            CompressorEntry { name: "lzma", compression_type: CompressionType::Lzma, supported: true },
        );
        compressors.push(
            CompressorEntry {
                name: "unknown",
                compression_type: CompressionType::NoCompression,
                supported: false,
            },
        );
        CompressorManager { compressors }
    }

    /// The first compressor named `name`, or the last one if none is.
    pub fn lookup_compressor(&self, name: &str) -> (r: &CompressorEntry)
        requires
            self.compressors@.len() > 0,
        ensures
            (exists|i: int| first_named(self.compressors@, name@, i) && *r == self.compressors@[i])
                || ((forall|i: int|
                0 <= i < self.compressors@.len() ==> #[trigger] self.compressors@[i].name@
                    != name@) && *r == self.compressors@.last()),
    {
        let mut i: usize = 0;
        while i < self.compressors.len()
            invariant
                i <= self.compressors@.len(),
                forall|j: int| 0 <= j < i ==> #[trigger] self.compressors@[j].name@ != name@,
            decreases self.compressors@.len() - i,
        {
            if str_eq(self.compressors[i].name, name) {
                assert(first_named(self.compressors@, name@, i as int));
                return &self.compressors[i];
            }
            i = i + 1;
        }
        let last = self.compressors.len() - 1;
        &self.compressors[last]
    }

    /// The first compressor whose type has number `id`, or the last one if
    /// none has.
    pub fn lookup_compressor_id(&self, id: i32) -> (r: &CompressorEntry)
        requires
            self.compressors@.len() > 0,
        ensures
            (exists|i: int| first_with_id(self.compressors@, id as int, i) && *r == self.compressors@[i])
                || ((forall|i: int|
                0 <= i < self.compressors@.len() ==> type_id(
                    #[trigger] self.compressors@[i].compression_type,
                ) != id) && *r == self.compressors@.last()),
    {
        let mut i: usize = 0;
        while i < self.compressors.len()
            invariant
                i <= self.compressors@.len(),
                forall|j: int|
                    0 <= j < i ==> type_id(#[trigger] self.compressors@[j].compression_type) != id,
            decreases self.compressors@.len() - i,
        {
            if self.compressors[i].compression_type.id() == id {
                assert(first_with_id(self.compressors@, id as int, i as int));
                return &self.compressors[i];
            }
            i = i + 1;
        }
        let last = self.compressors.len() - 1;
        &self.compressors[last]
    }

    /// Whether the compressor that `name` looks up can be used.
    pub fn valid_compressor(&self, name: &str) -> (r: bool)
        requires
            self.compressors@.len() > 0,
        ensures
            (exists|i: int| first_named(self.compressors@, name@, i) && r == self.compressors@[i].supported)
                || ((forall|i: int|
                0 <= i < self.compressors@.len() ==> #[trigger] self.compressors@[i].name@
                    != name@) && r == self.compressors@.last().supported),
    {
        self.lookup_compressor(name).supported
    }

    /// The text that lists the usable compressors, marking `def_comp` as the
    /// default.
    pub fn display_compressor_usage(&self, def_comp: &str, cols: usize) -> (r: String)
        ensures
            r@ == usage_heading() + usage_lines(self.compressors@, def_comp@),
    {
        let mut r = String::from_str("\nCompressors available and compressor specific options:\n\n");
        proof {
            reveal_strlit("\nCompressors available and compressor specific options:\n\n");
            assert(self.compressors@.take(0) =~= Seq::<CompressorEntry>::empty());
        }
        let mut i: usize = 0;
        while i < self.compressors.len()
            invariant
                i <= self.compressors@.len(),
                r@ == usage_heading() + usage_lines(self.compressors@.take(i as int), def_comp@),
            decreases self.compressors@.len() - i,
        {
            let e = &self.compressors[i];
            let ghost before = r@;
            if e.supported {
                push_str(&mut r, "\t");
                push_str(&mut r, e.name);
                if str_eq(e.name, def_comp) {
                    push_str(&mut r, " (default)");
                }
                push_str(&mut r, "\n");
            }
            proof {
                reveal_strlit("\t");
                reveal_strlit(" (default)");
                reveal_strlit("\n");
                let t = self.compressors@.take(i + 1);
                assert(t.drop_last() =~= self.compressors@.take(i as int));
                assert(r@ =~= before + usage_line(*e, def_comp@));
            }
            i = i + 1;
        }
        proof {
            assert(self.compressors@.take(self.compressors@.len() as int) =~= self.compressors@);
        }
        r
    }

    /// The line that states which compressor was chosen and its options.
    pub fn print_selected_comp_options(&self, comp: &CompressorEntry, prog_name: &str) -> (r: String)
        ensures
            r@ == options_line(": selected compressor \""@, prog_name@, comp.name@),
    {
        let mut r = String::from_str(prog_name);
        push_str(&mut r, ": selected compressor \"");
        push_str(&mut r, comp.name);
        push_str(&mut r, "\". Options supported: \n");
        r
    }

    /// The usage text of all compressors when `comp_name` is "all"; else the
    /// line of the usable compressor named `comp_name`, if there is one.
    pub fn print_comp_options(&self, cols: usize, comp_name: &str, prog_name: &str) -> (r: String)
        ensures
            comp_name@ == "all"@ ==> r@ == usage_heading() + usage_lines(
                self.compressors@,
                "gzip"@,
            ),
            comp_name@ != "all"@ ==> ((exists|i: int|
                first_supported_named(self.compressors@, comp_name@, i) && r@ == options_line(
                    ": compressor \""@,
                    prog_name@,
                    comp_name@,
                )) || ((forall|i: int|
                0 <= i < self.compressors@.len() ==> !(#[trigger] self.compressors@[i].name@
                    == comp_name@ && self.compressors@[i].supported)) && r@ == Seq::<char>::empty())),
    {
        if str_eq(comp_name, "all") {
            return self.display_compressor_usage("gzip", cols);
        }
        let mut i: usize = 0;
        while i < self.compressors.len()
            invariant
                i <= self.compressors@.len(),
                comp_name@ != "all"@,
                forall|j: int|
                    0 <= j < i ==> !(#[trigger] self.compressors@[j].name@ == comp_name@
                        && self.compressors@[j].supported),
            decreases self.compressors@.len() - i,
        {
            let e = &self.compressors[i];
            if e.supported && str_eq(e.name, comp_name) {
                assert(first_supported_named(self.compressors@, comp_name@, i as int));
                let mut r = String::from_str(prog_name);
                push_str(&mut r, ": compressor \"");
                push_str(&mut r, e.name);
                push_str(&mut r, "\". Options supported: \n");
                return r;
            }
            i = i + 1;
        }
        String::new()
    }
}

} // verus!
