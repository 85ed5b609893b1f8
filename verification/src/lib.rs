//! Offline reverse geocoding for India over H3 cells.
//!
//! A location dataset is kept per H3 resolution (4 for regions, 5 for
//! cities and districts). A lookup takes an H3 cell index and walks from the
//! finest supported resolution at or above the cell down to the coarsest one
//! allowed, returning the first location whose cell key is present.

pub mod config;
pub mod data_loader;
pub mod error;
pub mod geocoder;
pub mod h3_cell;
pub mod store;
pub mod types;

pub use config::{
    clamp_resolution, DEFAULT_RESOLUTION, MAX_RESOLUTION, MIN_RESOLUTION, SUPPORTED_RESOLUTIONS,
};
pub use data_loader::{
    clear_store_cache, get_store, load_all_stores_once, set_stores_for_testing, StoreCache,
};
pub use error::LakhuaError;
pub use geocoder::geocode_h3;
pub use store::ReverseGeoStore;
pub use types::{GeocodeOptions, GeocodeResult, LocationDetails};
