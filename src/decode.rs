use byteorder::{ByteOrder, LittleEndian};
use vstd::prelude::*;
use vstd::slice::slice_subrange;
use vstd::utf8::{decode_utf8, valid_utf8};

use crate::error::ExtractError;
use crate::layout::STRING_SIZE;

verus! {

/// The unsigned number that `b` encodes, least significant byte first.
#[verifier::opaque]
pub open spec fn le_value(b: Seq<u8>) -> nat
    decreases b.len(),
{
    if b.len() == 0 {
        0
    } else {
        b[0] as nat + 256 * le_value(b.drop_first())
    }
}

/// The `n` bytes at `at` all lie inside `d`.
pub open spec fn fits(d: Seq<u8>, at: int, n: int) -> bool {
    0 <= at && 0 <= n && at + n <= d.len()
}

/// The little-endian `u64` stored at `at`.
pub open spec fn u64_at(d: Seq<u8>, at: int) -> nat {
    le_value(d.subrange(at, at + 8))
}

/// The little-endian `u32` stored at `at`.
pub open spec fn u32_at(d: Seq<u8>, at: int) -> nat {
    le_value(d.subrange(at, at + 4))
}

/// Relies on byteorder's `LittleEndian::read_u64`: the value of the first
/// eight bytes, least significant first. It panics on fewer than eight.
#[verifier::external_body]
fn read_u64_le(b: &[u8]) -> (r: u64)
    requires
        b@.len() >= 8,
    ensures
        r as nat == le_value(b@.subrange(0, 8)),
{
    LittleEndian::read_u64(b)
}

/// Relies on byteorder's `LittleEndian::read_u32`: the value of the first
/// four bytes, least significant first. It panics on fewer than four.
#[verifier::external_body]
fn read_u32_le(b: &[u8]) -> (r: u32)
    requires
        b@.len() >= 4,
    ensures
        r as nat == le_value(b@.subrange(0, 4)),
{
    LittleEndian::read_u32(b)
}

/// Whether `base + rel + n` bytes fit in an input of `len` bytes, computed
/// without overflow.
pub fn in_bounds(len: usize, base: u64, rel: u64, n: u64) -> (r: bool)
    ensures
        r == (base + rel + n <= len),
{
    let l = len as u64;
    base <= l && rel <= l - base && n <= l - base - rel
}

/// The little-endian `u64` at `at`.
pub fn u64_from(data: &[u8], at: usize) -> (r: u64)
    requires
        fits(data@, at as int, 8),
    ensures
        r as nat == u64_at(data@, at as int),
{
    assert(data@.len() == data.len());
    let w = slice_subrange(data, at, at + 8);
    assert(w@.subrange(0, 8) =~= data@.subrange(at as int, at + 8));
    read_u64_le(w)
}

/// The little-endian `u32` at `at`.
pub fn u32_from(data: &[u8], at: usize) -> (r: u32)
    requires
        fits(data@, at as int, 4),
    ensures
        r as nat == u32_at(data@, at as int),
{
    assert(data@.len() == data.len());
    let w = slice_subrange(data, at, at + 4);
    assert(w@.subrange(0, 4) =~= data@.subrange(at as int, at + 4));
    read_u32_le(w)
}

/// The four bytes at `at` are `tag`.
pub open spec fn tag_at(d: Seq<u8>, at: int, tag: Seq<u8>) -> bool {
    fits(d, at, 4) && d.subrange(at, at + 4) == tag
}

/// Whether the four bytes at `at` are `tag`; false where they do not fit.
pub fn has_tag(data: &[u8], at: u64, tag: &[u8; 4]) -> (r: bool)
    ensures
        r == tag_at(data@, at as int, tag@),
{
    if !in_bounds(data.len(), at, 0, 4) {
        return false;
    }
    let p = at as usize;
    let r = data[p] == tag[0] && data[p + 1] == tag[1] && data[p + 2] == tag[2] && data[p + 3]
        == tag[3];
    if r {
        assert(data@.subrange(p as int, p + 4) =~= tag@);
    }
    r
}

/// `n` is the position of the first nul byte of `w`.
pub open spec fn is_first_nul(w: Seq<u8>, n: int) -> bool {
    0 <= n < w.len() && w[n] == 0 && forall|j: int| 0 <= j < n ==> w[j] != 0
}

/// `w` holds a nul byte.
pub open spec fn has_nul(w: Seq<u8>) -> bool {
    exists|n: int| is_first_nul(w, n)
}

/// The bytes of `w` before its first nul byte.
pub open spec fn text_before_nul(w: Seq<u8>) -> Seq<u8> {
    w.subrange(0, choose|n: int| is_first_nul(w, n))
}

/// `w` holds a name: a nul byte, and valid UTF-8 before the first one.
pub open spec fn is_valid_name(w: Seq<u8>) -> bool {
    has_nul(w) && valid_utf8(text_before_nul(w))
}

/// The name that `w` holds.
pub open spec fn name_of(w: Seq<u8>) -> Seq<char> {
    decode_utf8(text_before_nul(w))
}

/// A name field: the `STRING_SIZE` bytes at `at`.
pub open spec fn name_window(d: Seq<u8>, at: int) -> Seq<u8> {
    d.subrange(at, at + STRING_SIZE)
}

proof fn lemma_first_nul_unique(w: Seq<u8>, a: int, b: int)
    requires
        is_first_nul(w, a),
        is_first_nul(w, b),
    ensures
        a == b,
{
    if a < b {
        assert(w[a] != 0);
    } else if b < a {
        assert(w[b] != 0);
    }
}

/// Relies on `std::str::from_utf8`: it accepts exactly the well-formed UTF-8
/// byte sequences, and the text it returns is the one they encode.
#[verifier::external_body]
fn utf8_text(b: &[u8]) -> (r: Option<String>)
    ensures
        r is Some <==> valid_utf8(b@),
        r matches Some(s) ==> s@ == decode_utf8(b@),
{
    match std::str::from_utf8(b) {
        Ok(s) => Some(s.to_string()),
        Err(_) => None,
    }
}

/// Decodes a fixed-width name field: the text before its first nul byte.
pub fn vec_to_cstr(w: &[u8]) -> (r: Result<String, ExtractError>)
    ensures
        r is Ok <==> is_valid_name(w@),
        r matches Ok(s) ==> s@ == name_of(w@),
        r matches Err(e) ==> e == ExtractError::MalformedString,
{
    let mut i: usize = 0;
    while i < w.len() && w[i] != 0
        invariant
            i <= w@.len(),
            forall|j: int| 0 <= j < i ==> w@[j] != 0,
        decreases w@.len() - i,
    {
        i += 1;
    }
    if i == w.len() {
        assert(!has_nul(w@)) by {
            if has_nul(w@) {
                let n = choose|n: int| is_first_nul(w@, n);
                assert(w@[n] != 0);
            }
        }
        return Err(ExtractError::MalformedString);
    }
    assert(is_first_nul(w@, i as int));
    proof {
        let n = choose|n: int| is_first_nul(w@, n);
        lemma_first_nul_unique(w@, n, i as int);
    }
    let text = slice_subrange(w, 0, i);
    assert(text@ == text_before_nul(w@));
    match utf8_text(text) {
        Some(s) => Ok(s),
        None => Err(ExtractError::MalformedString),
    }
}

/// Reads the name field at `base + rel`.
pub fn read_string(data: &[u8], base: u64, rel: u64) -> (r: Result<String, ExtractError>)
    ensures
        !fits(data@, base + rel, STRING_SIZE as int) ==> r == Err::<String, ExtractError>(
            ExtractError::TruncatedInput,
        ),
        fits(data@, base + rel, STRING_SIZE as int) ==> {
            &&& r is Ok <==> is_valid_name(name_window(data@, base + rel))
            &&& r matches Ok(s) ==> s@ == name_of(name_window(data@, base + rel))
            &&& r matches Err(e) ==> e == ExtractError::MalformedString
        },
{
    if !in_bounds(data.len(), base, rel, STRING_SIZE) {
        return Err(ExtractError::TruncatedInput);
    }
    let at = (base + rel) as usize;
    let w = slice_subrange(data, at, at + STRING_SIZE as usize);
    vec_to_cstr(w)
}

} // verus!
