//! Properties of archive decoding that hold for every input.
use vstd::prelude::*;

use crate::archive::{is_archive_scan, ArchiveScan};
use crate::decode::{fits, tag_at};
use crate::error::ExtractError;
use crate::layout::{FILE_TABLE_ENTRY_SIZE, FILE_TABLE_START, OUTER_MAGIC, PACKAGE_MAGIC};
use crate::package::{
    file_count, first_offset, is_file_of, is_package_outcome, outcome_error, record_error,
    record_offset, record_pos, record_size, table_entries, ExtractedFile, PackageOutcome,
};
use crate::table::{table_entry, table_error, table_len};

verus! {

/// Two extracted files would be written alike: same record, same bytes.
pub open spec fn same_file(f: ExtractedFile, g: ExtractedFile) -> bool {
    &&& f.entry.name@ == g.entry.name@
    &&& f.entry.offset == g.entry.offset
    &&& f.entry.size == g.entry.size
    &&& f.entry.trailing == g.entry.trailing
    &&& f.contents@ == g.contents@
}

/// Two outcomes of walking a package would be written and reported alike.
pub open spec fn same_outcome(o: PackageOutcome, q: PackageOutcome) -> bool {
    match (o, q) {
        (PackageOutcome::NotAPackage, PackageOutcome::NotAPackage) => true,
        (PackageOutcome::Failed(e), PackageOutcome::Failed(f)) => e == f,
        (PackageOutcome::Walked(p, e), PackageOutcome::Walked(r, f)) => {
            &&& e == f
            &&& p.name@ == r.name@
            &&& p.files@.len() == r.files@.len()
            &&& forall|i: int|
                0 <= i < p.files@.len() ==> same_file(p.files@[i], #[trigger] r.files@[i])
        },
        _ => false,
    }
}

proof fn lemma_file_of_unique(d: Seq<u8>, s: int, i: int, f: ExtractedFile, g: ExtractedFile)
    requires
        is_file_of(d, s, i, f),
        is_file_of(d, s, i, g),
    ensures
        same_file(f, g),
{
    reveal(is_file_of);
}

proof fn lemma_file_of_readable(d: Seq<u8>, s: int, i: int, f: ExtractedFile)
    requires
        is_file_of(d, s, i, f),
    ensures
        record_error(d, s, record_pos(s, i)) is None,
{
    reveal(is_file_of);
}

/// Walking a package twice gives the same outcome: the same files with the
/// same bytes, and the same error.
pub proof fn lemma_package_outcome_repeatable(
    d: Seq<u8>,
    s: int,
    o: PackageOutcome,
    q: PackageOutcome,
)
    requires
        is_package_outcome(d, s, o),
        is_package_outcome(d, s, q),
    ensures
        same_outcome(o, q),
{
    if let (PackageOutcome::Walked(p, e), PackageOutcome::Walked(r, f)) = (o, q) {
        let n = p.files@.len() as int;
        let m = r.files@.len() as int;
        if record_error(d, s, record_pos(s, 0)) is None && first_offset(d, s) >= FILE_TABLE_START {
            if n < m {
                lemma_file_of_readable(d, s, n, r.files@[n]);
            } else if m < n {
                lemma_file_of_readable(d, s, m, p.files@[m]);
            }
        }
        assert forall|i: int| 0 <= i < p.files@.len() implies same_file(
            p.files@[i],
            #[trigger] r.files@[i],
        ) by {
            lemma_file_of_unique(d, s, i, p.files@[i], r.files@[i]);
        }
    }
}

/// Walking an archive twice gives the same outcome for every entry, with
/// the same files and bytes, and stops at the same error.
pub proof fn lemma_archive_scan_repeatable(d: Seq<u8>, a: ArchiveScan, b: ArchiveScan)
    requires
        is_archive_scan(d, a),
        is_archive_scan(d, b),
    ensures
        a.error == b.error,
        a.outcomes@.len() == b.outcomes@.len(),
        forall|i: int|
            0 <= i < a.outcomes@.len() ==> same_outcome(a.outcomes@[i], #[trigger] b.outcomes@[i]),
{
    if table_error(d) is None {
        let ka = a.outcomes@.len() as int;
        let kb = b.outcomes@.len() as int;
        if ka < kb {
            let s = table_entry(d, ka - 1).start as int;
            lemma_package_outcome_repeatable(d, s, a.outcomes@[ka - 1], b.outcomes@[ka - 1]);
        } else if kb < ka {
            let s = table_entry(d, kb - 1).start as int;
            lemma_package_outcome_repeatable(d, s, a.outcomes@[kb - 1], b.outcomes@[kb - 1]);
        }
        assert forall|i: int| 0 <= i < a.outcomes@.len() implies same_outcome(
            a.outcomes@[i],
            #[trigger] b.outcomes@[i],
        ) by {
            let s = table_entry(d, i).start as int;
            lemma_package_outcome_repeatable(d, s, a.outcomes@[i], b.outcomes@[i]);
        }
    }
}

/// Every file that a package yields comes from its own record: its bytes
/// are the `size` bytes found `offset` bytes after the package start.
pub proof fn lemma_file_bytes_from_source(
    d: Seq<u8>,
    s: int,
    o: PackageOutcome,
    i: int,
)
    requires
        is_package_outcome(d, s, o),
        o is Walked,
        0 <= i < o->Walked_0.files@.len(),
    ensures
        ({
            let f = o->Walked_0.files@[i];
            &&& f.entry.offset == record_offset(d, record_pos(s, i))
            &&& f.entry.size == record_size(d, record_pos(s, i))
            &&& f.contents@ == d.subrange(
                s + f.entry.offset,
                s + f.entry.offset + f.entry.size,
            )
        }),
{
    reveal(is_file_of);
    assert(is_file_of(d, s, i, o->Walked_0.files@[i]));
}

/// A well-formed package, whose file table holds at least one whole record
/// and whose files can all be read, yields exactly as many files as its
/// table holds records, each of exactly the size its record gives.
pub proof fn lemma_file_count_matches_table(d: Seq<u8>, s: int, o: PackageOutcome)
    requires
        is_package_outcome(d, s, o),
        o is Walked,
        outcome_error(o) is None,
        table_entries(d, s) >= 1,
    ensures
        o->Walked_0.files@.len() == table_entries(d, s),
        forall|i: int|
            0 <= i < o->Walked_0.files@.len() ==> (#[trigger] o->Walked_0.files@[i]).contents@.len()
                == o->Walked_0.files@[i].entry.size,
{
    reveal(is_file_of);
    let files = o->Walked_0.files@;
    assert forall|i: int| 0 <= i < files.len() implies (#[trigger] files[i]).contents@.len()
        == files[i].entry.size by {
        assert(is_file_of(d, s, i, files[i]));
    }
}

/// A package whose table holds exactly one record yields at most that
/// one file: no record after the first is read.
pub proof fn lemma_single_file_package(d: Seq<u8>, s: int, o: PackageOutcome)
    requires
        first_offset(d, s) == FILE_TABLE_START + FILE_TABLE_ENTRY_SIZE,
        is_package_outcome(d, s, o),
    ensures
        table_entries(d, s) == 1,
        file_count(d, s) == 1,
        o is Walked ==> o->Walked_0.files@.len() <= 1,
        o is Walked && outcome_error(o) is None ==> o->Walked_0.files@.len() == 1,
{
}

/// An outer entry that does not point at a package magic yields no files
/// and no error, and the entries after it are still walked.
pub proof fn lemma_non_package_skipped(d: Seq<u8>, a: ArchiveScan, i: int)
    requires
        is_archive_scan(d, a),
        table_error(d) is None,
        0 <= i < table_len(d),
        i <= a.outcomes@.len(),
        forall|j: int| 0 <= j < i ==> outcome_error(#[trigger] a.outcomes@[j]) is None,
        fits(d, table_entry(d, i).start as int, 4),
        !tag_at(d, table_entry(d, i).start as int, PACKAGE_MAGIC@),
    ensures
        i < a.outcomes@.len(),
        a.outcomes@[i] == PackageOutcome::NotAPackage,
        i + 1 < table_len(d) ==> i + 1 < a.outcomes@.len(),
{
    if i == a.outcomes@.len() && i > 0 {
        assert(outcome_error(a.outcomes@[i - 1]) is None);
    }
}

/// An input that does not start with the outer magic yields nothing, and
/// the walk stops with `InvalidMagic`.
pub proof fn lemma_bad_magic_stops(d: Seq<u8>, a: ArchiveScan)
    requires
        is_archive_scan(d, a),
        !tag_at(d, 0, OUTER_MAGIC@),
    ensures
        a.outcomes@.len() == 0,
        a.error == Some(ExtractError::InvalidMagic),
{
}

} // verus!
