use lakhua::{
    geocode_h3, load_all_stores_once, GeocodeOptions, LakhuaError, LocationDetails,
    ReverseGeoStore, StoreCache,
};

/// The part of the datasets that these tests look at.
fn dataset(resolution: u8) -> Result<ReverseGeoStore, LakhuaError> {
    let orchha = LocationDetails {
        city: "Orchha".to_string(),
        state: "Madhya Pradesh".to_string(),
        district: Some("Niwari".to_string()),
        pincode: None,
    };
    let mut store = ReverseGeoStore::new();
    match resolution {
        4 => {
            store.insert("843d839ffffffff".to_string(), orchha);
        }
        5 => {
            store.insert("853d838bfffffff".to_string(), orchha);
        }
        _ => return Err(LakhuaError::DataFileNotFound(resolution)),
    }
    Ok(store)
}

fn loaded_cache() -> StoreCache {
    let mut cache = StoreCache::new();
    load_all_stores_once(&mut cache, dataset).unwrap();
    cache
}

#[test]
fn test_geocode_h3_exact_match_res5() {
    let cache = loaded_cache();
    let options = GeocodeOptions::default();
    let result = geocode_h3(&cache, "853d838bfffffff", &options).unwrap();

    if let Some(loc) = result {
        assert!(!loc.location.city.is_empty());
        assert!(!loc.location.state.is_empty());
        assert_eq!(loc.matched_h3, "853d838bfffffff");
        assert_eq!(loc.matched_resolution, 5);
    }
}

#[test]
fn test_geocode_h3_exact_match_res4() {
    let cache = loaded_cache();
    let options = GeocodeOptions::default();
    let result = geocode_h3(&cache, "843d839ffffffff", &options).unwrap();

    if let Some(loc) = result {
        assert!(!loc.location.city.is_empty());
        assert!(!loc.location.state.is_empty());
        assert_eq!(loc.matched_h3, "843d839ffffffff");
        assert_eq!(loc.matched_resolution, 4);
    }
}

#[test]
fn test_geocode_h3_fallback_res5_to_res4() {
    let cache = loaded_cache();
    let options = GeocodeOptions {
        resolution: 5,
        fallback: true,
        debug: false,
    };

    let result = geocode_h3(&cache, "853d838bfffffff", &options).unwrap();
    if let Some(loc) = result {
        assert!(loc.matched_resolution == 4 || loc.matched_resolution == 5);
    }
}

#[test]
fn test_geocode_h3_no_fallback() {
    let cache = loaded_cache();
    let options = GeocodeOptions {
        resolution: 5,
        fallback: false,
        debug: false,
    };

    let result = geocode_h3(&cache, "853d838bfffffff", &options).unwrap();
    if let Some(loc) = result {
        assert_eq!(loc.matched_resolution, 5);
    }
}

#[test]
fn test_geocode_h3_invalid_index() {
    let cache = loaded_cache();
    let options = GeocodeOptions::default();
    let result = geocode_h3(&cache, "invalid_h3_index", &options);
    assert!(result.is_err());
}

#[test]
fn test_geocode_options_defaults() {
    let opts = GeocodeOptions::default();
    assert_eq!(opts.resolution, 5);
    assert!(opts.fallback);
    assert!(!opts.debug);
}

#[test]
fn test_geocode_result_structure() {
    let cache = loaded_cache();
    let options = GeocodeOptions::default();
    let result = geocode_h3(&cache, "853d838bfffffff", &options).unwrap();

    if let Some(loc) = result {
        assert!(loc.location.city.len() > 0);
        assert!(loc.location.state.len() > 0);
        assert!(loc.matched_h3.len() > 0);
        assert!(loc.matched_resolution >= 4 && loc.matched_resolution <= 5);
    }
}
