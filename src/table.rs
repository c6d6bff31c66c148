//! The outer offset table: where each package of the archive starts.
use vstd::prelude::*;

use crate::decode::{fits, has_tag, in_bounds, tag_at, u64_at, u64_from};
use crate::error::ExtractError;
use crate::layout::{OFFSET_TABLE_ENTRY_SIZE, OFFSET_TABLE_START, OUTER_MAGIC};

verus! {

/// One entry of the outer offset table.
#[derive(Clone, Copy, Debug, PartialEq, Eq, Structural)]
pub struct OffsetTableEntry {
    /// Where the package starts, from the start of the archive.
    pub start: u64,
    /// The package's length; recorded, never used to bound a read.
    pub size: u64,
}

/// Position of outer entry `i`.
pub open spec fn entry_pos(i: int) -> int {
    OFFSET_TABLE_START + OFFSET_TABLE_ENTRY_SIZE * i
}

/// The `start` field of the first outer entry.
pub open spec fn first_entry_start(d: Seq<u8>) -> int {
    u64_at(d, OFFSET_TABLE_START as int) as int
}

/// How many entries the outer table holds: the table ends where the first
/// package starts.
pub open spec fn table_len(d: Seq<u8>) -> int {
    (first_entry_start(d) - OFFSET_TABLE_START) / OFFSET_TABLE_ENTRY_SIZE as int
}

/// Outer entry `i`, as stored.
pub open spec fn table_entry(d: Seq<u8>, i: int) -> OffsetTableEntry {
    OffsetTableEntry {
        start: u64_at(d, entry_pos(i)) as u64,
        size: u64_at(d, entry_pos(i) + 8) as u64,
    }
}

/// Why the outer table of `d` cannot be read, if it cannot.
pub open spec fn table_error(d: Seq<u8>) -> Option<ExtractError> {
    if !tag_at(d, 0, OUTER_MAGIC@) {
        Some(ExtractError::InvalidMagic)
    } else if !fits(d, OFFSET_TABLE_START as int, OFFSET_TABLE_ENTRY_SIZE as int) {
        Some(ExtractError::TruncatedInput)
    } else if first_entry_start(d) < OFFSET_TABLE_START + OFFSET_TABLE_ENTRY_SIZE {
        Some(ExtractError::CorruptOffsetTable)
    } else if !fits(
        d,
        OFFSET_TABLE_START as int,
        OFFSET_TABLE_ENTRY_SIZE * table_len(d),
    ) {
        Some(ExtractError::TruncatedInput)
    } else {
        None
    }
}

/// `t` is the outer table of `d`, in file order.
pub open spec fn is_table_of(d: Seq<u8>, t: Seq<OffsetTableEntry>) -> bool {
    &&& t.len() == table_len(d)
    &&& forall|i: int| 0 <= i < t.len() ==> t[i] == table_entry(d, i)
}

/// Checks the archive's magic and reads its outer offset table.
pub fn read_offset_table(data: &[u8]) -> (r: Result<Vec<OffsetTableEntry>, ExtractError>)
    ensures
        match table_error(data@) {
            Some(e) => r == Err::<Vec<OffsetTableEntry>, ExtractError>(e),
            None => r matches Ok(t) && is_table_of(data@, t@),
        },
{
    if !has_tag(data, 0, &OUTER_MAGIC) {
        return Err(ExtractError::InvalidMagic);
    }
    if !in_bounds(data.len(), OFFSET_TABLE_START, 0, OFFSET_TABLE_ENTRY_SIZE) {
        return Err(ExtractError::TruncatedInput);
    }
    let first_start = u64_from(data, OFFSET_TABLE_START as usize);
    let first_size = u64_from(data, (OFFSET_TABLE_START + 8) as usize);
    if first_start < OFFSET_TABLE_START + OFFSET_TABLE_ENTRY_SIZE {
        return Err(ExtractError::CorruptOffsetTable);
    }
    let len = first_start - OFFSET_TABLE_START;
    let entries = len / OFFSET_TABLE_ENTRY_SIZE;
    assert(OFFSET_TABLE_ENTRY_SIZE * entries <= len) by (nonlinear_arith)
        requires
            entries == len / 16,
            OFFSET_TABLE_ENTRY_SIZE == 16,
    ;
    if !in_bounds(data.len(), OFFSET_TABLE_START, 0, OFFSET_TABLE_ENTRY_SIZE * entries) {
        return Err(ExtractError::TruncatedInput);
    }
    let mut table: Vec<OffsetTableEntry> = Vec::new();
    table.push(OffsetTableEntry { start: first_start, size: first_size });
    let mut i: u64 = 1;
    while i < entries
        invariant
            1 <= i <= entries,
            entries == table_len(data@),
            fits(data@, OFFSET_TABLE_START as int, OFFSET_TABLE_ENTRY_SIZE * entries),
            table@.len() == i,
            forall|j: int| 0 <= j < i ==> table@[j] == table_entry(data@, j),
        decreases entries - i,
    {
        assert(OFFSET_TABLE_ENTRY_SIZE * (i + 1) <= OFFSET_TABLE_ENTRY_SIZE * entries)
            by (nonlinear_arith)
            requires
                i + 1 <= entries,
        ;
        assert(data@.len() == data.len());
        let at = (OFFSET_TABLE_START + OFFSET_TABLE_ENTRY_SIZE * i) as usize;
        let start = u64_from(data, at);
        let size = u64_from(data, at + 8);
        table.push(OffsetTableEntry { start, size });
        i += 1;
    }
    Ok(table)
}

} // verus!
