//! Fixed positions and sizes of the archive format.
use vstd::prelude::*;

verus! {

/// "ibdl": the first four bytes of an archive.
pub const OUTER_MAGIC: [u8; 4] = [0x69, 0x62, 0x64, 0x6c];

/// "ipkg": the first four bytes of a package.
pub const PACKAGE_MAGIC: [u8; 4] = [0x69, 0x70, 0x6b, 0x67];

/// Where the outer offset table starts, from the start of the archive.
pub const OFFSET_TABLE_START: u64 = 0x929;

/// One outer table entry: a `u64` start and a `u64` size.
pub const OFFSET_TABLE_ENTRY_SIZE: u64 = 16;

/// Width of a fixed-size name field.
pub const STRING_SIZE: u64 = 0x100;

/// Where a package's name field lies, from the package start.
pub const PACKAGE_NAME_OFFSET: u64 = 0x220;

/// Where a package's file table starts, from the package start.
pub const FILE_TABLE_START: u64 = 0x43d;

/// A file record after its name: `u64` offset, `u64` size, `u32` trailing field.
pub const FILE_METADATA_SIZE: u64 = 0x14;

/// One file record: its name field and its metadata.
pub const FILE_TABLE_ENTRY_SIZE: u64 = STRING_SIZE + FILE_METADATA_SIZE;

} // verus!
