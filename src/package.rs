//! Packages: a name and a table of files, each stored inside the package.
use vstd::prelude::*;
use vstd::slice::{slice_subrange, slice_to_vec};

use crate::decode::{
    fits, has_tag, in_bounds, is_valid_name, name_of, name_window, read_string, tag_at, u32_at,
    u32_from, u64_at, u64_from,
};
use crate::error::ExtractError;
use crate::layout::{
    FILE_TABLE_ENTRY_SIZE, FILE_TABLE_START, PACKAGE_MAGIC, PACKAGE_NAME_OFFSET, STRING_SIZE,
};

verus! {

/// One record of a package's file table.
#[derive(Clone, Debug)]
pub struct FileEntry {
    pub name: String,
    /// Where the file's bytes start, from the package start.
    pub offset: u64,
    /// How many bytes the file has.
    pub size: u64,
    /// The record's last field, whose meaning is not known; kept, not checked.
    pub trailing: u32,
}

/// A file of a package, with its bytes copied out of the archive.
#[derive(Clone, Debug)]
pub struct ExtractedFile {
    pub entry: FileEntry,
    pub contents: Vec<u8>,
}

/// A package and all of its files, in table order.
#[derive(Clone, Debug)]
pub struct Package {
    pub name: String,
    pub files: Vec<ExtractedFile>,
}

impl Package {
    /// The directory that the package's files go into: its name and ".ipk".
    pub fn dir_name(&self) -> (r: String)
        ensures
            r@ == self.name@ + ".ipk"@,
    {
        let mut dir = self.name.clone();
        dir.append(".ipk");
        dir
    }
}

/// Position of file record `i` of the package that starts at `s`.
pub open spec fn record_pos(s: int, i: int) -> int {
    s + FILE_TABLE_START + FILE_TABLE_ENTRY_SIZE * i
}

/// The `offset` field of the record at `p`.
pub open spec fn record_offset(d: Seq<u8>, p: int) -> int {
    u64_at(d, p + STRING_SIZE) as int
}

/// The `size` field of the record at `p`.
pub open spec fn record_size(d: Seq<u8>, p: int) -> int {
    u64_at(d, p + STRING_SIZE + 8) as int
}

/// The trailing field of the record at `p`.
pub open spec fn record_trailing(d: Seq<u8>, p: int) -> int {
    u32_at(d, p + STRING_SIZE + 16) as int
}

/// Why the record at `p` cannot be decoded, if it cannot.
pub open spec fn entry_error(d: Seq<u8>, p: int) -> Option<ExtractError> {
    if !fits(d, p, FILE_TABLE_ENTRY_SIZE as int) {
        Some(ExtractError::TruncatedInput)
    } else if !is_valid_name(name_window(d, p)) {
        Some(ExtractError::MalformedString)
    } else {
        None
    }
}

/// `e` is the record stored at `p`.
pub open spec fn is_entry_at(d: Seq<u8>, p: int, e: FileEntry) -> bool {
    &&& e.name@ == name_of(name_window(d, p))
    &&& e.offset == record_offset(d, p)
    &&& e.size == record_size(d, p)
    &&& e.trailing == record_trailing(d, p)
}

/// Why the file of the record at `p`, in the package that starts at `s`,
/// cannot be extracted, if it cannot.
pub open spec fn record_error(d: Seq<u8>, s: int, p: int) -> Option<ExtractError> {
    if entry_error(d, p) is Some {
        entry_error(d, p)
    } else if !fits(d, s + record_offset(d, p), record_size(d, p)) {
        Some(ExtractError::TruncatedInput)
    } else {
        None
    }
}

/// `f` is the file of the record at `p`: its record, and the `size` bytes
/// found `offset` bytes after the package start `s`.
pub open spec fn is_file_at(d: Seq<u8>, s: int, p: int, f: ExtractedFile) -> bool {
    &&& is_entry_at(d, p, f.entry)
    &&& f.contents@ == d.subrange(
        s + f.entry.offset,
        s + f.entry.offset + f.entry.size,
    )
}

/// `f` is file `i` of the package that starts at `s`, and it can be read.
#[verifier::opaque]
pub open spec fn is_file_of(d: Seq<u8>, s: int, i: int, f: ExtractedFile) -> bool {
    record_error(d, s, record_pos(s, i)) is None && is_file_at(d, s, record_pos(s, i), f)
}

/// The `offset` field of the first record: the first file's data follows
/// the file table directly, so it marks where the table ends.
pub open spec fn first_offset(d: Seq<u8>, s: int) -> int {
    record_offset(d, record_pos(s, 0))
}

/// How many whole records the file table holds, by its span.
pub open spec fn table_entries(d: Seq<u8>, s: int) -> int {
    (first_offset(d, s) - FILE_TABLE_START) / FILE_TABLE_ENTRY_SIZE as int
}

/// How many files the package yields: the first record is always read.
pub open spec fn file_count(d: Seq<u8>, s: int) -> int {
    if table_entries(d, s) < 1 {
        1
    } else {
        table_entries(d, s)
    }
}

/// The name of the package that starts at `s`.
pub open spec fn package_name(d: Seq<u8>, s: int) -> Seq<char> {
    name_of(name_window(d, s + PACKAGE_NAME_OFFSET))
}

/// What walking one package gives.
#[derive(Clone, Debug)]
pub enum PackageOutcome {
    /// The position holds no package magic: the entry is skipped.
    NotAPackage,
    /// The package's header cannot be read: nothing of it is extracted.
    Failed(ExtractError),
    /// The package's name was read. Its files are those extracted in table
    /// order; the error, if any, stopped the walk after them.
    Walked(Package, Option<ExtractError>),
}

/// The error that an outcome reports, if any.
pub open spec fn outcome_error(o: PackageOutcome) -> Option<ExtractError> {
    match o {
        PackageOutcome::NotAPackage => None,
        PackageOutcome::Failed(e) => Some(e),
        PackageOutcome::Walked(_, e) => e,
    }
}

/// `files` and `err` are what walking the file table of the package that
/// starts at `s` gives: each file in table order until one cannot be
/// extracted, and the reason.
pub open spec fn is_files_walk(
    d: Seq<u8>,
    s: int,
    files: Seq<ExtractedFile>,
    err: Option<ExtractError>,
) -> bool {
    if record_error(d, s, record_pos(s, 0)) is Some {
        files.len() == 0 && err == record_error(d, s, record_pos(s, 0))
    } else if first_offset(d, s) < FILE_TABLE_START {
        &&& files.len() == 1
        &&& is_file_of(d, s, 0, files[0])
        &&& err == Some(ExtractError::CorruptFileTable)
    } else {
        &&& forall|i: int| 0 <= i < files.len() ==> is_file_of(d, s, i, #[trigger] files[i])
        &&& match err {
            None => files.len() == file_count(d, s),
            Some(e) => 1 <= files.len() < file_count(d, s) && record_error(
                d,
                s,
                record_pos(s, files.len() as int),
            ) == Some(e),
        }
    }
}

/// `o` is what walking the package that starts at `s` gives.
pub open spec fn is_package_outcome(d: Seq<u8>, s: int, o: PackageOutcome) -> bool {
    if !fits(d, s, 4) {
        o == PackageOutcome::Failed(ExtractError::TruncatedInput)
    } else if !tag_at(d, s, PACKAGE_MAGIC@) {
        o == PackageOutcome::NotAPackage
    } else if !fits(d, s + PACKAGE_NAME_OFFSET, STRING_SIZE as int) {
        o == PackageOutcome::Failed(ExtractError::TruncatedInput)
    } else if !is_valid_name(name_window(d, s + PACKAGE_NAME_OFFSET)) {
        o == PackageOutcome::Failed(ExtractError::MalformedString)
    } else {
        match o {
            PackageOutcome::Walked(p, err) => {
                &&& p.name@ == package_name(d, s)
                &&& is_files_walk(d, s, p.files@, err)
            },
            _ => false,
        }
    }
}

/// Decodes the file record at `base + rel`.
pub fn read_file_entry(data: &[u8], base: u64, rel: u64) -> (r: Result<FileEntry, ExtractError>)
    ensures
        match entry_error(data@, base + rel) {
            Some(e) => r == Err::<FileEntry, ExtractError>(e),
            None => r matches Ok(f) && is_entry_at(data@, base + rel, f),
        },
{
    if !in_bounds(data.len(), base, rel, FILE_TABLE_ENTRY_SIZE) {
        return Err(ExtractError::TruncatedInput);
    }
    let name = match read_string(data, base, rel) {
        Ok(name) => name,
        Err(e) => return Err(e),
    };
    let at = (base + rel) as usize;
    let offset = u64_from(data, at + STRING_SIZE as usize);
    let size = u64_from(data, at + STRING_SIZE as usize + 8);
    let trailing = u32_from(data, at + STRING_SIZE as usize + 16);
    Ok(FileEntry { name, offset, size, trailing })
}

/// Decodes the file record at `package_start + rel` and copies out the
/// file's bytes.
pub fn extract_ipkg_file(data: &[u8], package_start: u64, rel: u64) -> (r: Result<
    ExtractedFile,
    ExtractError,
>)
    ensures
        match record_error(data@, package_start as int, package_start + rel) {
            Some(e) => r == Err::<ExtractedFile, ExtractError>(e),
            None => r matches Ok(f) && is_file_at(
                data@,
                package_start as int,
                package_start + rel,
                f,
            ),
        },
{
    let entry = match read_file_entry(data, package_start, rel) {
        Ok(entry) => entry,
        Err(e) => return Err(e),
    };
    if !in_bounds(data.len(), package_start, entry.offset, entry.size) {
        return Err(ExtractError::TruncatedInput);
    }
    let from = (package_start + entry.offset) as usize;
    let contents = slice_to_vec(slice_subrange(data, from, from + entry.size as usize));
    Ok(ExtractedFile { entry, contents })
}

/// Walks the package that starts at `start`: checks its magic, reads its
/// name, and extracts every file of its table. The table's length is not
/// stored: it ends where the first file's bytes begin.
pub fn split_ipkg(data: &[u8], start: u64) -> (r: PackageOutcome)
    ensures
        is_package_outcome(data@, start as int, r),
{
    if !in_bounds(data.len(), start, 0, 4) {
        return PackageOutcome::Failed(ExtractError::TruncatedInput);
    }
    if !has_tag(data, start, &PACKAGE_MAGIC) {
        return PackageOutcome::NotAPackage;
    }
    let name = match read_string(data, start, PACKAGE_NAME_OFFSET) {
        Ok(name) => name,
        Err(e) => return PackageOutcome::Failed(e),
    };
    let mut files: Vec<ExtractedFile> = Vec::new();
    let first = match extract_ipkg_file(data, start, FILE_TABLE_START) {
        Ok(f) => f,
        Err(e) => return PackageOutcome::Walked(Package { name, files }, Some(e)),
    };
    let offset = first.entry.offset;
    files.push(first);
    assert(is_file_of(data@, start as int, 0, files@[0])) by {
        reveal(is_file_of);
    }
    if offset < FILE_TABLE_START {
        return PackageOutcome::Walked(
            Package { name, files },
            Some(ExtractError::CorruptFileTable),
        );
    }
    let len = offset - FILE_TABLE_START;
    let entries = len / FILE_TABLE_ENTRY_SIZE;
    let count = if entries < 1 {
        1
    } else {
        entries
    };
    let mut i: u64 = 1;
    while i < count
        invariant
            1 <= i <= count,
            fits(data@, start as int, 4),
            tag_at(data@, start as int, PACKAGE_MAGIC@),
            fits(data@, start + PACKAGE_NAME_OFFSET, STRING_SIZE as int),
            is_valid_name(name_window(data@, start + PACKAGE_NAME_OFFSET)),
            name@ == package_name(data@, start as int),
            record_error(data@, start as int, record_pos(start as int, 0)) is None,
            offset >= FILE_TABLE_START,
            first_offset(data@, start as int) == offset,
            len == offset - FILE_TABLE_START,
            entries == len / FILE_TABLE_ENTRY_SIZE,
            entries == table_entries(data@, start as int),
            count == file_count(data@, start as int),
            count == entries || count == 1,
            files@.len() == i,
            forall|j: int| 0 <= j < i ==> is_file_of(data@, start as int, j, #[trigger] files@[j]),
        decreases count - i,
    {
        assert(FILE_TABLE_ENTRY_SIZE * i < len) by (nonlinear_arith)
            requires
                i < entries,
                entries == len / 276,
                FILE_TABLE_ENTRY_SIZE == 276,
        ;
        let rel = FILE_TABLE_START + FILE_TABLE_ENTRY_SIZE * i;
        assert(start + rel == record_pos(start as int, i as int));
        let f = match extract_ipkg_file(data, start, rel) {
            Ok(f) => f,
            Err(e) => return PackageOutcome::Walked(Package { name, files }, Some(e)),
        };
        assert(is_file_of(data@, start as int, i as int, f)) by {
            reveal(is_file_of);
        }
        files.push(f);
        i += 1;
    }
    PackageOutcome::Walked(Package { name, files }, None)
}

} // verus!
