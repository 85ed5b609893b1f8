use std::collections::HashMap;

use lakhua::{
    clear_store_cache, geocode_h3, set_stores_for_testing, GeocodeOptions, LocationDetails,
    ReverseGeoStore, StoreCache,
};

fn test_options() -> GeocodeOptions {
    GeocodeOptions {
        resolution: 5,
        fallback: true,
        debug: false,
    }
}

fn make_location(city: &str) -> LocationDetails {
    LocationDetails {
        city: city.to_string(),
        state: "Test State".to_string(),
        district: None,
        pincode: None,
    }
}

fn store_of(entries: &[(&str, &str)]) -> ReverseGeoStore {
    let mut store = ReverseGeoStore::new();
    for (key, city) in entries {
        store.insert(key.to_string(), make_location(city));
    }
    store
}

#[test]
fn test_geocode_h3_exact_match() {
    let mut cache = StoreCache::new();
    clear_store_cache(&mut cache);

    let store5 = store_of(&[("853d838bfffffff", "Orchha")]);

    let mut stores = HashMap::new();
    stores.insert(5u8, store5);
    set_stores_for_testing(&mut cache, stores);

    let result = geocode_h3(&cache, "853d838bfffffff", &test_options())
        .unwrap()
        .unwrap();

    assert_eq!(result.location.city, "Orchha");
    assert_eq!(result.matched_h3, "853d838bfffffff");
    assert_eq!(result.matched_resolution, 5);
}

#[test]
fn test_geocode_h3_fallback_to_resolution_4() {
    let mut cache = StoreCache::new();
    clear_store_cache(&mut cache);

    let store4 = store_of(&[("843d839ffffffff", "OrchhaRegion")]);
    let store5 = store_of(&[("853d838bfffffff", "Orchha")]);

    let mut stores = HashMap::new();
    stores.insert(4u8, store4);
    stores.insert(5u8, store5);
    set_stores_for_testing(&mut cache, stores);

    let opts = GeocodeOptions {
        resolution: 5,
        fallback: true,
        debug: false,
    };

    let result = geocode_h3(&cache, "853d838bfffffff", &opts).unwrap();
    assert!(result.is_some());
}

#[test]
fn test_geocode_h3_no_match() {
    let mut cache = StoreCache::new();
    clear_store_cache(&mut cache);

    let store5 = store_of(&[("851fb467fffffff", "Unrelated")]);

    let mut stores = HashMap::new();
    stores.insert(5u8, store5);
    stores.insert(4u8, ReverseGeoStore::new());
    set_stores_for_testing(&mut cache, stores);

    let result = geocode_h3(&cache, "853d838bfffffff", &test_options()).unwrap();
    assert!(result.is_none());
}

#[test]
fn test_geocode_invalid_h3() {
    let mut cache = StoreCache::new();
    clear_store_cache(&mut cache);

    let mut stores = HashMap::new();
    stores.insert(5u8, ReverseGeoStore::new());
    stores.insert(4u8, ReverseGeoStore::new());
    set_stores_for_testing(&mut cache, stores);

    let result = geocode_h3(&cache, "invalid_index", &test_options());
    assert!(result.is_err());
}
