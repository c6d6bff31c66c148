//! A whole archive: the outer table, then each package it points to.
use vstd::prelude::*;

use crate::error::ExtractError;
use crate::package::{is_package_outcome, outcome_error, split_ipkg, PackageOutcome};
use crate::table::{is_table_of, read_offset_table, table_entry, table_error, table_len};

verus! {

/// What walking an archive gives: the outcome of each outer entry walked,
/// in table order, and the error that stopped the walk, if one did. Files
/// extracted before an error are kept.
#[derive(Clone, Debug)]
pub struct ArchiveScan {
    pub outcomes: Vec<PackageOutcome>,
    pub error: Option<ExtractError>,
}

/// `a` is what walking the archive `d` gives: where the outer table can be
/// read, every entry in order until one reports an error.
pub open spec fn is_archive_scan(d: Seq<u8>, a: ArchiveScan) -> bool {
    match table_error(d) {
        Some(e) => a.outcomes@.len() == 0 && a.error == Some(e),
        None => {
            let k = a.outcomes@.len() as int;
            &&& k <= table_len(d)
            &&& forall|i: int|
                0 <= i < k ==> is_package_outcome(
                    d,
                    table_entry(d, i).start as int,
                    #[trigger] a.outcomes@[i],
                )
            &&& forall|i: int| 0 <= i < k - 1 ==> outcome_error(#[trigger] a.outcomes@[i]) is None
            &&& a.error == if k == 0 {
                None
            } else {
                outcome_error(a.outcomes@[k - 1])
            }
            &&& a.error is None ==> k == table_len(d)
        },
    }
}

/// Reads the outer table of `data`, then walks each package it points to,
/// in table order, until one reports an error.
pub fn split_ibdl(data: &[u8]) -> (r: ArchiveScan)
    ensures
        is_archive_scan(data@, r),
{
    let table = match read_offset_table(data) {
        Ok(t) => t,
        Err(e) => return ArchiveScan { outcomes: Vec::new(), error: Some(e) },
    };
    let mut outcomes: Vec<PackageOutcome> = Vec::new();
    let mut i: usize = 0;
    while i < table.len()
        invariant
            table_error(data@) is None,
            is_table_of(data@, table@),
            i <= table@.len(),
            outcomes@.len() == i,
            forall|j: int|
                0 <= j < i ==> is_package_outcome(
                    data@,
                    table_entry(data@, j).start as int,
                    #[trigger] outcomes@[j],
                ),
            forall|j: int| 0 <= j < i ==> outcome_error(#[trigger] outcomes@[j]) is None,
        decreases table@.len() - i,
    {
        let o = split_ipkg(data, table[i].start);
        let error = match &o {
            PackageOutcome::NotAPackage => None,
            PackageOutcome::Failed(e) => Some(*e),
            PackageOutcome::Walked(_, e) => *e,
        };
        outcomes.push(o);
        if error.is_some() {
            return ArchiveScan { outcomes, error };
        }
        i += 1;
    }
    ArchiveScan { outcomes, error: None }
}

} // verus!
