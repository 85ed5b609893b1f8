use vstd::prelude::*;

verus! {

/// What the datasets say about a place.
#[derive(Debug, Clone, PartialEq, Eq)]
pub struct LocationDetails {
    pub city: String,
    pub state: String,
    pub district: Option<String>,
    pub pincode: Option<String>,
}

/// A place found for a cell, with the cell key and resolution it was found at.
#[derive(Debug, Clone, PartialEq, Eq)]
pub struct GeocodeResult {
    pub location: LocationDetails,
    pub matched_h3: String,
    pub matched_resolution: u8,
}

/// How a lookup proceeds.
#[derive(Debug, Clone)]
pub struct GeocodeOptions {
    /// Resolution at which coordinates are turned into a cell.
    pub resolution: u8,
    /// Whether to try coarser resolutions when the finest one has no match.
    pub fallback: bool,
    /// Whether to log the steps of the lookup.
    pub debug: bool,
}

impl Default for GeocodeOptions {
    fn default() -> (r: Self)
        ensures
            r.resolution == 5,
            r.fallback,
            !r.debug,
    {
        GeocodeOptions { resolution: 5, fallback: true, debug: false }
    }
}

fn copy_text(text: &Option<String>) -> (r: Option<String>)
    ensures
        r == *text,
{
    match text {
        Some(t) => Some(t.clone()),
        None => None,
    }
}

/// A field-by-field copy of `location`.
pub(crate) fn copy_location(location: &LocationDetails) -> (r: LocationDetails)
    ensures
        r == *location,
{
    LocationDetails {
        city: location.city.clone(),
        state: location.state.clone(),
        district: copy_text(&location.district),
        pincode: copy_text(&location.pincode),
    }
}

} // verus!
