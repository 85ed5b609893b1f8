use std::collections::HashMap;

use lakhua::geocoder::{build_result, resolution_to_h3};
use lakhua::{
    clamp_resolution, geocode_h3, set_stores_for_testing, GeocodeOptions, LakhuaError,
    LocationDetails, ReverseGeoStore, StoreCache,
};

fn place(city: &str) -> LocationDetails {
    LocationDetails {
        city: city.to_string(),
        state: "Madhya Pradesh".to_string(),
        district: None,
        pincode: Some("472246".to_string()),
    }
}

fn cache_with(entries: &[(u8, &str, &str)]) -> StoreCache {
    let mut stores: HashMap<u8, ReverseGeoStore> = HashMap::new();
    for (resolution, key, city) in entries {
        stores
            .entry(*resolution)
            .or_insert_with(ReverseGeoStore::new)
            .insert(key.to_string(), place(city));
    }
    let mut cache = StoreCache::new();
    set_stores_for_testing(&mut cache, stores);
    cache
}

fn options(fallback: bool) -> GeocodeOptions {
    GeocodeOptions {
        resolution: 5,
        fallback,
        debug: false,
    }
}

#[test]
fn finest_match_wins() {
    let cache = cache_with(&[
        (4, "843d839ffffffff", "Region"),
        (5, "853d838bfffffff", "Orchha"),
    ]);
    let found = geocode_h3(&cache, "853d838bfffffff", &options(true))
        .unwrap()
        .unwrap();
    assert_eq!(found.matched_resolution, 5);
    assert_eq!(found.location.city, "Orchha");
    assert_eq!(found.location.pincode.as_deref(), Some("472246"));
}

#[test]
fn fallback_finds_parent_key() {
    let cache = cache_with(&[(4, "843d839ffffffff", "Region")]);
    let found = geocode_h3(&cache, "853d838bfffffff", &options(true))
        .unwrap()
        .unwrap();
    assert_eq!(found.matched_resolution, 4);
    assert_eq!(found.matched_h3, "843d839ffffffff");
    assert_eq!(found.location.city, "Region");
}

#[test]
fn no_fallback_stops_at_start() {
    let cache = cache_with(&[(4, "843d839ffffffff", "Region")]);
    let result = geocode_h3(&cache, "853d838bfffffff", &options(false)).unwrap();
    assert!(result.is_none());
}

#[test]
fn fine_cell_starts_at_finest_supported_parent() {
    let cache = cache_with(&[(5, "853d838bfffffff", "Orchha")]);
    let found = geocode_h3(&cache, "893d8388003ffff", &options(false))
        .unwrap()
        .unwrap();
    assert_eq!(found.matched_resolution, 5);
    assert_eq!(found.matched_h3, "853d838bfffffff");
}

#[test]
fn coarse_cell_finds_nothing() {
    let cache = cache_with(&[
        (4, "823d87fffffffff", "Region"),
        (5, "823d87fffffffff", "Region"),
    ]);
    let result = geocode_h3(&cache, "823d87fffffffff", &options(true)).unwrap();
    assert!(result.is_none());
}

#[test]
fn own_text_is_the_key_at_own_resolution() {
    let cache = cache_with(&[(5, "853D838BFFFFFFF", "Upper")]);
    let found = geocode_h3(&cache, "853D838BFFFFFFF", &options(false))
        .unwrap()
        .unwrap();
    assert_eq!(found.matched_h3, "853D838BFFFFFFF");
    assert_eq!(found.location.city, "Upper");

    let lower = cache_with(&[(5, "853d838bfffffff", "Lower")]);
    let result = geocode_h3(&lower, "853D838BFFFFFFF", &options(false)).unwrap();
    assert!(result.is_none());
}

#[test]
fn missing_resolution_dataset_is_skipped() {
    let cache = cache_with(&[(4, "843d839ffffffff", "Region")]);
    let found = geocode_h3(&cache, "843d839ffffffff", &options(false))
        .unwrap()
        .unwrap();
    assert_eq!(found.matched_resolution, 4);
}

#[test]
fn invalid_index_reports_parser_message() {
    let cache = cache_with(&[]);
    match geocode_h3(&cache, "invalid_index", &options(true)) {
        Err(LakhuaError::InvalidH3Index(message)) => {
            assert_eq!(message, "invalid cell index (got None): invalid 64-bit hex number")
        }
        other => panic!("unexpected {:?}", other),
    }
    match geocode_h3(&cache, "853d838bfffffff0", &options(true)) {
        Err(LakhuaError::InvalidH3Index(_)) => {}
        other => panic!("unexpected {:?}", other),
    }
}

#[test]
fn resolution_to_h3_range() {
    assert_eq!(resolution_to_h3(0).unwrap(), 0);
    assert_eq!(resolution_to_h3(15).unwrap(), 15);
    match resolution_to_h3(16) {
        Err(LakhuaError::H3(message)) => assert_eq!(message, "Invalid resolution: 16"),
        other => panic!("unexpected {:?}", other),
    }
    match resolution_to_h3(255) {
        Err(LakhuaError::H3(message)) => assert_eq!(message, "Invalid resolution: 255"),
        other => panic!("unexpected {:?}", other),
    }
}

#[test]
fn build_result_copies_its_inputs() {
    let location = place("Orchha");
    let result = build_result(&location, "853d838bfffffff", 5);
    assert_eq!(result.location, location);
    assert_eq!(result.matched_h3, "853d838bfffffff");
    assert_eq!(result.matched_resolution, 5);
}

#[test]
fn clamp_resolution_values() {
    assert_eq!(clamp_resolution(0), 4);
    assert_eq!(clamp_resolution(1), 4);
    assert_eq!(clamp_resolution(4), 4);
    assert_eq!(clamp_resolution(5), 5);
    assert_eq!(clamp_resolution(6), 5);
    assert_eq!(clamp_resolution(15), 5);
    assert_eq!(clamp_resolution(255), 5);
    for r in 0..=255u8 {
        assert_eq!(clamp_resolution(clamp_resolution(r)), clamp_resolution(r));
        if r < 255 {
            assert!(clamp_resolution(r) <= clamp_resolution(r + 1));
        }
    }
}

#[test]
fn same_lookup_same_result() {
    let cache = cache_with(&[(4, "843d839ffffffff", "Region")]);
    let a = geocode_h3(&cache, "853d838bfffffff", &options(true)).unwrap();
    let b = geocode_h3(&cache, "853d838bfffffff", &options(true)).unwrap();
    assert_eq!(a, b);
    let without = geocode_h3(&cache, "843d839ffffffff", &options(false)).unwrap();
    let with = geocode_h3(&cache, "843d839ffffffff", &options(true)).unwrap();
    assert_eq!(without, with);
}
