//! H3 cell indexes as the lookup sees them: 64-bit values handed to and
//! from the `h3o` crate.

use h3o::{CellIndex, Resolution};
use vstd::prelude::*;

verus! {

/// Whether `h3o` accepts `bits` as a cell index (its `TryFrom<u64>` for
/// `CellIndex` succeeds).
pub uninterp spec fn is_valid_cell_index(bits: u64) -> bool;

/// What `h3o` makes of a string parsed as a cell index (its `FromStr` for
/// `CellIndex`): the index on success, else the text of the error.
pub uninterp spec fn cell_index_from_str(s: Seq<char>) -> Result<u64, Seq<char>>;

/// The resolution field of an H3 index: four bits from bit 52 on.
pub open spec fn resolution_of(bits: u64) -> u8 {
    ((bits >> 52u64) & 0xfu64) as u8
}

/// The index of the ancestor of `bits` at `resolution`: the resolution field
/// set to `resolution` and every direction finer than it marked unused.
pub open spec fn parent_bits(bits: u64, resolution: u8) -> u64 {
    let with_resolution = (bits & !(0xfu64 << 52u64)) | ((resolution as u64) << 52u64);
    let unused = ((1u64 << (3 * (15 - resolution)) as u64) - 1) as u64;
    with_resolution | unused
}

/// A lowercase hexadecimal digit.
pub open spec fn hex_digit(d: nat) -> char {
    if d < 10 {
        (('0' as nat) + d) as char
    } else {
        (('a' as nat) + d - 10) as char
    }
}

/// `n` written in lowercase hexadecimal, without prefix or leading zeros.
pub open spec fn lower_hex(n: nat) -> Seq<char>
    decreases n,
{
    if n < 16 {
        seq![hex_digit(n)]
    } else {
        lower_hex(n / 16).push(hex_digit(n % 16))
    }
}

/// Parses `s` as an H3 cell index with `h3o`'s `str::parse::<CellIndex>`.
/// Claims that the result is the one named by `cell_index_from_str`, the
/// error turned into its display text, and that a parsed index is one that
/// `h3o` accepts (its parser ends with the `u64` validation).
#[verifier::external_body]
pub(crate) fn parse_cell_index(s: &str) -> (r: Result<u64, String>)
    ensures
        match (r, cell_index_from_str(s@)) {
            (Ok(bits), Ok(named)) => bits == named && is_valid_cell_index(bits),
            (Err(text), Err(named)) => text@ == named,
            _ => false,
        },
{
    match s.parse::<CellIndex>() {
        Ok(cell) => Ok(u64::from(cell)),
        Err(e) => Err(e.to_string()),
    }
}

/// The resolution of a cell, from `h3o`'s `CellIndex::resolution`; claims
/// it is the four-bit resolution field of the index.
#[verifier::external_body]
pub(crate) fn cell_resolution(bits: u64) -> (r: u8)
    requires
        is_valid_cell_index(bits),
    ensures
        r == resolution_of(bits),
{
    match CellIndex::try_from(bits) {
        Ok(cell) => u8::from(cell.resolution()),
        Err(_) => 0,
    }
}

/// The ancestor of a cell at `resolution`, from `h3o`'s `CellIndex::parent`.
/// Claims that there is one exactly when `resolution` is not finer than the
/// cell's own, that it is `parent_bits(bits, resolution)`, and that it is a
/// cell index `h3o` accepts.
#[verifier::external_body]
pub(crate) fn cell_parent(bits: u64, resolution: u8) -> (r: Option<u64>)
    requires
        is_valid_cell_index(bits),
        resolution <= 15,
    ensures
        r is Some <==> resolution <= resolution_of(bits),
        r matches Some(p) ==> p == parent_bits(bits, resolution) && is_valid_cell_index(p),
{
    match (CellIndex::try_from(bits), Resolution::try_from(resolution)) {
        (Ok(cell), Ok(res)) => cell.parent(res).map(u64::from),
        _ => None,
    }
}

/// The text of a cell index, from `h3o`'s `Display` for `CellIndex`; claims
/// it is the index in lowercase hexadecimal.
#[verifier::external_body]
pub(crate) fn cell_to_string(bits: u64) -> (r: String)
    requires
        is_valid_cell_index(bits),
    ensures
        r@ == lower_hex(bits as nat),
{
    match CellIndex::try_from(bits) {
        Ok(cell) => cell.to_string(),
        Err(_) => String::new(),
    }
}

} // verus!
