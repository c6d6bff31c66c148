use vstd::prelude::*;

verus! {

/// Why decoding an archive stopped.
#[derive(Clone, Copy, Debug, PartialEq, Eq, Structural)]
pub enum ExtractError {
    /// The input does not start with the outer magic.
    InvalidMagic,
    /// The first outer entry starts before the end of that entry itself, so
    /// the table would hold no whole entry.
    CorruptOffsetTable,
    /// The first file record of a package points inside the file table.
    CorruptFileTable,
    /// A read goes past the end of the input.
    TruncatedInput,
    /// A fixed-width name has no nul byte, or is not valid UTF-8.
    MalformedString,
}

} // verus!
