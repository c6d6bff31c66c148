//! Decoding of "ibdl" archives: an outer offset table of nested "ipkg"
//! packages, each holding a table of named files.
//!
//! The library works on the whole archive held in memory as bytes. It finds
//! every package and every file in it and returns their names and contents;
//! writing them out is left to the caller.

pub mod archive;
pub mod decode;
pub mod error;
pub mod laws;
pub mod layout;
pub mod package;
pub mod table;

pub use error::ExtractError;
