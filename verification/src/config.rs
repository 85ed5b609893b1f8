use vstd::prelude::*;

verus! {

/// Coarsest resolution that has a dataset.
pub const MIN_RESOLUTION: u8 = 4;

/// Finest resolution that has a dataset.
pub const MAX_RESOLUTION: u8 = 5;

/// Resolution used when the caller does not choose one.
pub const DEFAULT_RESOLUTION: u8 = 5;

/// The resolutions for which a dataset exists, in loading order.
pub const SUPPORTED_RESOLUTIONS: [u8; 2] = [4, 5];

/// File name prefix of the per-resolution datasets.
pub const DATA_FILE_PREFIX: &'static str = "reverse_geo_";

/// `resolution` brought into `[MIN_RESOLUTION, MAX_RESOLUTION]`.
pub open spec fn clamped(resolution: int) -> int {
    if resolution < MIN_RESOLUTION {
        MIN_RESOLUTION as int
    } else if resolution > MAX_RESOLUTION {
        MAX_RESOLUTION as int
    } else {
        resolution
    }
}

/// Whether `resolution` has a dataset.
pub open spec fn is_supported(resolution: int) -> bool {
    MIN_RESOLUTION <= resolution <= MAX_RESOLUTION
}

/// Brings a requested resolution into the supported range.
pub fn clamp_resolution(resolution: u8) -> (r: u8)
    ensures
        r == clamped(resolution as int),
        is_supported(r as int),
        is_supported(resolution as int) ==> r == resolution,
{
    if resolution < MIN_RESOLUTION {
        MIN_RESOLUTION
    } else if resolution > MAX_RESOLUTION {
        MAX_RESOLUTION
    } else {
        resolution
    }
}

/// Clamping twice is clamping once.
pub proof fn clamp_is_idempotent(resolution: int)
    ensures
        clamped(clamped(resolution)) == clamped(resolution),
{
}

/// Clamping never moves a resolution past another one: it is monotone.
pub proof fn clamp_is_monotone(a: int, b: int)
    requires
        a <= b,
    ensures
        clamped(a) <= clamped(b),
{
}

} // verus!
