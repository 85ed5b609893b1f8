//! Looking up the place of an H3 cell, from the finest supported resolution
//! at or above the cell down to the coarsest one allowed.

use vstd::prelude::*;

use crate::config::{clamp_resolution, clamped, MIN_RESOLUTION};
use crate::data_loader::StoreCache;
use crate::error::LakhuaError;
use crate::h3_cell::{
    cell_index_from_str, cell_parent, cell_resolution, cell_to_string, is_valid_cell_index,
    lower_hex, parent_bits, parse_cell_index, resolution_of,
};
use crate::types::{copy_location, GeocodeOptions, GeocodeResult, LocationDetails};

verus! {

broadcast use vstd::string::group_string_axioms;

/// A decimal digit.
pub open spec fn decimal_digit(d: nat) -> char {
    (('0' as nat) + d) as char
}

/// `n` written in decimal, without leading zeros.
pub open spec fn decimal(n: nat) -> Seq<char>
    decreases n,
{
    if n < 10 {
        seq![decimal_digit(n)]
    } else {
        decimal(n / 10).push(decimal_digit(n % 10))
    }
}

/// The message for a resolution outside H3's range, made with `format!`;
/// claims it is the fixed text followed by the resolution in decimal.
#[verifier::external_body]
fn invalid_resolution_message(resolution: u8) -> (r: String)
    ensures
        r@ == "Invalid resolution: "@ + decimal(resolution as nat),
{
    format!("Invalid resolution: {}", resolution)
}

/// Checks that `resolution` names one of H3's resolutions (0 to 15).
pub fn resolution_to_h3(resolution: u8) -> (r: Result<u8, LakhuaError>)
    ensures
        resolution <= 15 ==> r == Ok::<u8, LakhuaError>(resolution),
        resolution > 15 ==> (r matches Err(LakhuaError::H3(message)) && message@
            == "Invalid resolution: "@ + decimal(resolution as nat)),
{
    if resolution <= 15 {
        Ok(resolution)
    } else {
        Err(LakhuaError::H3(invalid_resolution_message(resolution)))
    }
}

/// The result for `location`, found under `h3_index` at `resolution`.
pub fn build_result(location: &LocationDetails, h3_index: &str, resolution: u8) -> (r: GeocodeResult)
    ensures
        r.location == *location,
        r.matched_h3@ == h3_index@,
        r.matched_resolution == resolution,
{
    GeocodeResult {
        location: copy_location(location),
        matched_h3: h3_index.to_string(),
        matched_resolution: resolution,
    }
}

/// The key looked up at `resolution` for the cell `cell` written `text`: the
/// text itself at the cell's own resolution, the text of its ancestor at a
/// coarser resolution, and none at a finer one.
pub open spec fn candidate_key(text: Seq<char>, cell: u64, resolution: u8) -> Option<Seq<char>> {
    if resolution == resolution_of(cell) {
        Some(text)
    } else if resolution < resolution_of(cell) {
        Some(lower_hex(parent_bits(cell, resolution) as nat))
    } else {
        None
    }
}

/// The dataset of `resolution` holds the key looked up there.
pub open spec fn match_at(
    stores: Map<u8, Map<Seq<char>, LocationDetails>>,
    text: Seq<char>,
    cell: u64,
    resolution: u8,
) -> bool {
    match candidate_key(text, cell, resolution) {
        Some(key) => stores.contains_key(resolution) && stores[resolution].contains_key(key),
        None => false,
    }
}

/// The resolution a lookup of `cell` starts at: the cell's own, clamped.
pub open spec fn start_resolution(cell: u64) -> u8 {
    clamped(resolution_of(cell) as int) as u8
}

/// The coarsest resolution a lookup of `cell` tries.
pub open spec fn end_resolution(cell: u64, fallback: bool) -> u8 {
    if fallback {
        MIN_RESOLUTION
    } else {
        start_resolution(cell)
    }
}

/// `result` is what looking up `cell`, written `text`, in `stores` gives: the
/// match at the finest resolution from the start down to the end, with the
/// key and place found there, or nothing when no resolution in that range
/// has a match.
pub open spec fn is_lookup_result(
    stores: Map<u8, Map<Seq<char>, LocationDetails>>,
    text: Seq<char>,
    cell: u64,
    fallback: bool,
    result: Option<GeocodeResult>,
) -> bool {
    let start = start_resolution(cell);
    let end = end_resolution(cell, fallback);
    match result {
        None => forall|r: u8| end <= r <= start ==> !#[trigger] match_at(stores, text, cell, r),
        Some(found) => {
            let r = found.matched_resolution;
            &&& end <= r <= start
            &&& match_at(stores, text, cell, r)
            &&& candidate_key(text, cell, r) == Some(found.matched_h3@)
            &&& found.location == stores[r][found.matched_h3@]
            &&& forall|finer: u8|
                r < finer <= start ==> !#[trigger] match_at(stores, text, cell, finer)
        },
    }
}

/// Looks up the place of the H3 cell written `h3_index` in `stores`.
///
/// Fails with `InvalidH3Index` when the text is not a cell index. Otherwise
/// tries the resolutions from the cell's own (clamped to the supported range)
/// down to the coarsest supported one, or only the first when
/// `options.fallback` is off, and gives the first place found.
pub fn geocode_h3(stores: &StoreCache, h3_index: &str, options: &GeocodeOptions) -> (r: Result<
    Option<GeocodeResult>,
    LakhuaError,
>)
    ensures
        match cell_index_from_str(h3_index@) {
            Err(message) => (r matches Err(LakhuaError::InvalidH3Index(m)) && m@ == message),
            Ok(cell) => (r matches Ok(found) && is_lookup_result(
                stores@,
                h3_index@,
                cell,
                options.fallback,
                found,
            )),
        },
{
    let cell = match parse_cell_index(h3_index) {
        Ok(cell) => cell,
        Err(message) => {
            return Err(LakhuaError::InvalidH3Index(message));
        },
    };
    let input_resolution = cell_resolution(cell);
    let start = clamp_resolution(input_resolution);
    let end = if options.fallback {
        MIN_RESOLUTION
    } else {
        start
    };
    let mut resolution = start;
    loop
        invariant
            cell_index_from_str(h3_index@) == Ok::<u64, Seq<char>>(cell),
            is_valid_cell_index(cell),
            input_resolution == resolution_of(cell),
            start == start_resolution(cell),
            end == end_resolution(cell, options.fallback),
            end <= resolution <= start,
            forall|finer: u8|
                resolution < finer <= start ==> !#[trigger] match_at(
                    stores@,
                    h3_index@,
                    cell,
                    finer,
                ),
        ensures
            forall|r: u8| end <= r <= start ==> !#[trigger] match_at(stores@, h3_index@, cell, r),
        decreases resolution,
    {
        let candidate = if resolution == input_resolution {
            Some(h3_index.to_string())
        } else {
            let h3_resolution = resolution_to_h3(resolution)?;
            match cell_parent(cell, h3_resolution) {
                Some(parent) => Some(cell_to_string(parent)),
                None => None,
            }
        };
        assert(match candidate {
            Some(key) => candidate_key(h3_index@, cell, resolution) == Some(key@),
            None => candidate_key(h3_index@, cell, resolution) is None,
        });
        if let Some(key) = &candidate {
            if let Some(store) = stores.store(resolution) {
                if let Some(location) = store.get(key) {
                    return Ok(Some(build_result(location, key.as_str(), resolution)));
                }
            }
        }
        if resolution == end {
            break ;
        }
        resolution = resolution - 1;
    }
    Ok(None)
}

/// A lookup has one outcome: two results that both meet `is_lookup_result`
/// for the same cell, text, datasets and fallback setting agree on whether
/// a place is found, and on its resolution, key and place.
pub proof fn lookup_result_is_unique(
    stores: Map<u8, Map<Seq<char>, LocationDetails>>,
    text: Seq<char>,
    cell: u64,
    fallback: bool,
    a: Option<GeocodeResult>,
    b: Option<GeocodeResult>,
)
    requires
        is_lookup_result(stores, text, cell, fallback, a),
        is_lookup_result(stores, text, cell, fallback, b),
    ensures
        a is Some <==> b is Some,
        a matches Some(x) ==> b matches Some(y) && x.matched_resolution == y.matched_resolution
            && x.matched_h3@ == y.matched_h3@ && x.location == y.location,
{
    match (a, b) {
        (Some(x), Some(y)) => {
            assert(!(x.matched_resolution < y.matched_resolution));
            assert(!(y.matched_resolution < x.matched_resolution));
        },
        (Some(x), None) => {
            assert(match_at(stores, text, cell, x.matched_resolution));
        },
        (None, Some(y)) => {
            assert(match_at(stores, text, cell, y.matched_resolution));
        },
        (None, None) => {},
    }
}

/// A place is only ever found at a supported resolution.
pub proof fn matched_resolution_is_supported(
    stores: Map<u8, Map<Seq<char>, LocationDetails>>,
    text: Seq<char>,
    cell: u64,
    fallback: bool,
    found: GeocodeResult,
)
    requires
        is_lookup_result(stores, text, cell, fallback, Some(found)),
    ensures
        MIN_RESOLUTION <= found.matched_resolution <= crate::config::MAX_RESOLUTION,
        found.matched_resolution <= start_resolution(cell),
{
}

/// Without fallback, a place is only found at the starting resolution.
pub proof fn no_fallback_stays_at_start(
    stores: Map<u8, Map<Seq<char>, LocationDetails>>,
    text: Seq<char>,
    cell: u64,
    found: GeocodeResult,
)
    requires
        is_lookup_result(stores, text, cell, false, Some(found)),
    ensures
        found.matched_resolution == start_resolution(cell),
{
}

/// Fallback only adds coarser tries: a place found without fallback is the
/// one found with it, and finding nothing with fallback means finding
/// nothing without it.
pub proof fn fallback_extends_lookup(
    stores: Map<u8, Map<Seq<char>, LocationDetails>>,
    text: Seq<char>,
    cell: u64,
    without: Option<GeocodeResult>,
    with: Option<GeocodeResult>,
)
    requires
        is_lookup_result(stores, text, cell, false, without),
        is_lookup_result(stores, text, cell, true, with),
    ensures
        without matches Some(x) ==> with matches Some(y) && x.matched_resolution
            == y.matched_resolution && x.matched_h3@ == y.matched_h3@ && x.location == y.location,
        with is None ==> without is None,
{
    match (without, with) {
        (Some(x), Some(y)) => {
            assert(!(x.matched_resolution < y.matched_resolution));
            assert(!(y.matched_resolution < x.matched_resolution));
        },
        (Some(x), None) => {
            assert(match_at(stores, text, cell, x.matched_resolution));
        },
        _ => {},
    }
}

/// A cell at a supported resolution whose own text is a key of that
/// resolution's dataset is found exactly there, under its own text.
pub proof fn exact_match_is_found(
    stores: Map<u8, Map<Seq<char>, LocationDetails>>,
    text: Seq<char>,
    cell: u64,
    fallback: bool,
    result: Option<GeocodeResult>,
)
    requires
        crate::config::is_supported(resolution_of(cell) as int),
        stores.contains_key(resolution_of(cell)),
        stores[resolution_of(cell)].contains_key(text),
        is_lookup_result(stores, text, cell, fallback, result),
    ensures
        result matches Some(found) && found.matched_resolution == resolution_of(cell)
            && found.matched_h3@ == text && found.location == stores[resolution_of(cell)][text],
{
    let r = resolution_of(cell);
    assert(match_at(stores, text, cell, r));
    match result {
        Some(found) => {
            assert(!(found.matched_resolution < r));
        },
        None => {},
    }
}

/// The ancestor of a cell at a resolution `r` has resolution `r`.
pub proof fn ancestor_has_its_resolution(cell: u64, r: u8)
    requires
        r <= 15,
    ensures
        resolution_of(parent_bits(cell, r)) == r,
{
    let shift: u64 = (3 * (15 - r)) as u64;
    assert(shift <= 45);
    let mask: u64 = ((1u64 << shift) - 1) as u64;
    let r64: u64 = r as u64;
    assert((((cell & !(0xfu64 << 52u64)) | (r64 << 52u64)) | mask) >> 52u64 & 0xfu64 == r64)
        by (bit_vector)
        requires
            r64 <= 15,
            shift <= 45,
            mask == ((1u64 << shift) - 1) as u64,
    ;
}

/// With fallback on, every resolution from the finest supported one at or
/// above the cell down to the coarsest supported one is tried; without it,
/// only the first. The key tried at a resolution `r` at or below the cell's
/// own is the cell's own text at its own resolution and the text of the
/// cell's ancestor at `r` below it. So when that key is in the dataset of
/// such an `r`, a place is found, at `r` or at a finer resolution.
pub proof fn ancestor_key_in_range_is_found(
    stores: Map<u8, Map<Seq<char>, LocationDetails>>,
    text: Seq<char>,
    cell: u64,
    fallback: bool,
    result: Option<GeocodeResult>,
    r: u8,
)
    requires
        is_lookup_result(stores, text, cell, fallback, result),
        (if fallback {
            MIN_RESOLUTION as int
        } else {
            clamped(resolution_of(cell) as int)
        }) <= r <= clamped(resolution_of(cell) as int),
        r <= resolution_of(cell),
        stores.contains_key(r),
        stores[r].contains_key(
            if r == resolution_of(cell) {
                text
            } else {
                lower_hex(parent_bits(cell, r) as nat)
            },
        ),
    ensures
        result matches Some(found) && r <= found.matched_resolution && found.matched_resolution
            <= clamped(resolution_of(cell) as int),
{
    assert(match_at(stores, text, cell, r));
    match result {
        Some(found) => {
            assert(!(found.matched_resolution < r));
        },
        None => {},
    }
}

/// A place found for a cell is found at a supported resolution no finer
/// than the cell's own nor than the finest supported one, and at exactly the
/// latter without fallback. It is found under the cell's own text at the
/// cell's own resolution and under the text of the cell's ancestor (which
/// has that resolution) below it, it is that key's place in that
/// resolution's dataset, and no finer resolution tried has its key in its
/// dataset.
pub proof fn found_place_is_ancestor_entry(
    stores: Map<u8, Map<Seq<char>, LocationDetails>>,
    text: Seq<char>,
    cell: u64,
    fallback: bool,
    found: GeocodeResult,
)
    requires
        is_lookup_result(stores, text, cell, fallback, Some(found)),
    ensures
        MIN_RESOLUTION <= found.matched_resolution <= clamped(resolution_of(cell) as int),
        found.matched_resolution <= resolution_of(cell),
        !fallback ==> found.matched_resolution == clamped(resolution_of(cell) as int),
        found.matched_h3@ == (if found.matched_resolution == resolution_of(cell) {
            text
        } else {
            lower_hex(parent_bits(cell, found.matched_resolution) as nat)
        }),
        found.matched_resolution < resolution_of(cell) ==> resolution_of(
            parent_bits(cell, found.matched_resolution),
        ) == found.matched_resolution,
        stores.contains_key(found.matched_resolution),
        stores[found.matched_resolution].contains_key(found.matched_h3@),
        found.location == stores[found.matched_resolution][found.matched_h3@],
        forall|finer: u8|
            found.matched_resolution < finer <= clamped(resolution_of(cell) as int) && finer
                <= resolution_of(cell) ==> !(stores.contains_key(finer) && stores[finer].contains_key(
                if finer == resolution_of(cell) {
                    text
                } else {
                    lower_hex(parent_bits(cell, finer) as nat)
                },
            )),
{
    let r = found.matched_resolution;
    ancestor_has_its_resolution(cell, r);
    assert forall|finer: u8|
        r < finer <= clamped(resolution_of(cell) as int) && finer <= resolution_of(cell) implies !(
        stores.contains_key(finer) && stores[finer].contains_key(
            if finer == resolution_of(cell) {
                text
            } else {
                lower_hex(parent_bits(cell, finer) as nat)
            },
        )) by {
        assert(!match_at(stores, text, cell, finer));
    }
}

} // verus!
