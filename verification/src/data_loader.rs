//! The per-resolution datasets held in memory, and how they are loaded.

use std::collections::HashMap;

use vstd::prelude::*;

use crate::config::SUPPORTED_RESOLUTIONS;
use crate::error::LakhuaError;
use crate::store::ReverseGeoStore;
use crate::types::LocationDetails;

verus! {

broadcast use vstd::std_specs::hash::group_hash_axioms;

/// The datasets in memory, one per resolution.
#[derive(Debug)]
pub struct StoreCache {
    stores: HashMap<u8, ReverseGeoStore>,
}

/// The contents of a dataset map, each dataset taken by its view.
pub open spec fn views_of(stores: Map<u8, ReverseGeoStore>) -> Map<
    u8,
    Map<Seq<char>, LocationDetails>,
> {
    stores.map_values(|s: ReverseGeoStore| s@)
}

impl View for StoreCache {
    type V = Map<u8, Map<Seq<char>, LocationDetails>>;

    closed spec fn view(&self) -> Map<u8, Map<Seq<char>, LocationDetails>> {
        views_of(self.stores@)
    }
}

/// The supported resolutions, in loading order.
pub open spec fn loading_order() -> Seq<u8> {
    seq![4u8, 5u8]
}

/// The first `count` resolutions of the loading order.
pub open spec fn first_resolutions(count: int) -> Set<u8> {
    Set::new(|r: u8| exists|i: int| 0 <= i < count && r == #[trigger] loading_order()[i])
}

/// `store` is the view of a dataset that `read` may give back for `resolution`.
pub open spec fn read_gives<F: Fn(u8) -> Result<ReverseGeoStore, LakhuaError>>(
    read: F,
    resolution: u8,
    store: Map<Seq<char>, LocationDetails>,
) -> bool {
    exists|s: ReverseGeoStore| #[trigger] read.ensures((resolution,), Ok(s)) && s@ == store
}

/// `cache` holds exactly the first `count` resolutions of the loading order,
/// each with a dataset that `read` may give back for it.
pub open spec fn loaded_first<F: Fn(u8) -> Result<ReverseGeoStore, LakhuaError>>(
    read: F,
    cache: Map<u8, Map<Seq<char>, LocationDetails>>,
    count: int,
) -> bool {
    &&& cache.dom() == first_resolutions(count)
    &&& forall|i: int|
        0 <= i < count ==> read_gives(read, loading_order()[i], #[trigger] cache[loading_order()[i]])
}

/// What one call of `load_all_stores_once` does: nothing when something is
/// loaded already; otherwise it reads the resolutions in order, keeps each
/// dataset read, and stops at the first failure, which it returns.
pub open spec fn load_outcome<F: Fn(u8) -> Result<ReverseGeoStore, LakhuaError>>(
    read: F,
    before: Map<u8, Map<Seq<char>, LocationDetails>>,
    after: Map<u8, Map<Seq<char>, LocationDetails>>,
    result: Result<(), LakhuaError>,
) -> bool {
    if !before.dom().is_empty() {
        after == before && result is Ok
    } else {
        match result {
            Ok(()) => loaded_first(read, after, 2),
            Err(e) => exists|count: int|
                0 <= count < 2 && loaded_first(read, after, count) && #[trigger] read.ensures(
                    (loading_order()[count],),
                    Err(e),
                ),
        }
    }
}

impl StoreCache {
    /// A cache with nothing loaded.
    pub fn new() -> (r: Self)
        ensures
            r@ == Map::<u8, Map<Seq<char>, LocationDetails>>::empty(),
    {
        let r = StoreCache { stores: HashMap::new() };
        assert(r@ =~= Map::<u8, Map<Seq<char>, LocationDetails>>::empty());
        r
    }

    /// Whether no dataset is held.
    pub fn is_empty(&self) -> (r: bool)
        ensures
            r == self@.dom().is_empty(),
    {
        assert(self@.dom() =~= self.stores@.dom());
        self.stores.is_empty()
    }

    /// The dataset held for `resolution`, without copying it.
    pub fn store(&self, resolution: u8) -> (r: Option<&ReverseGeoStore>)
        ensures
            match r {
                Some(s) => self@.contains_key(resolution) && s@ == self@[resolution],
                None => !self@.contains_key(resolution),
            },
    {
        self.stores.get(&resolution)
    }
}

/// Loads every supported dataset with `read`, unless some dataset is held
/// already. Datasets read before a failure stay loaded.
pub fn load_all_stores_once<F: Fn(u8) -> Result<ReverseGeoStore, LakhuaError>>(
    stores: &mut StoreCache,
    read: F,
) -> (r: Result<(), LakhuaError>)
    requires
        forall|resolution: u8| read.requires((resolution,)),
    ensures
        load_outcome(read, old(stores)@, final(stores)@, r),
{
    if !stores.is_empty() {
        return Ok(());
    }
    assert(stores@ =~= Map::<u8, Map<Seq<char>, LocationDetails>>::empty());
    assert(first_resolutions(0) =~= Set::<u8>::empty());
    assert(SUPPORTED_RESOLUTIONS@ =~= loading_order());
    let mut i: usize = 0;
    while i < 2
        invariant
            i <= 2,
            forall|resolution: u8| read.requires((resolution,)),
            loaded_first(read, stores@, i as int),
            SUPPORTED_RESOLUTIONS@ == loading_order(),
            old(stores)@.dom().is_empty(),
        decreases 2 - i,
    {
        let resolution = SUPPORTED_RESOLUTIONS[i];
        let ghost before = stores@;
        match read(resolution) {
            Ok(store) => {
                stores.stores.insert(resolution, store);
                proof {
                    assert(read_gives(read, resolution, store@));
                    assert(stores@ =~= before.insert(resolution, store@));
                    assert(stores@.dom() =~= first_resolutions(i + 1));
                    assert forall|j: int| 0 <= j < i + 1 implies read_gives(
                        read,
                        loading_order()[j],
                        #[trigger] stores@[loading_order()[j]],
                    ) by {
                        if j < i {
                            assert(before.contains_key(loading_order()[j]));
                        }
                    }
                }
                i = i + 1;
            },
            Err(e) => {
                assert(read.ensures((loading_order()[i as int],), Err(e)));
                assert(loaded_first(read, stores@, i as int));
                return Err(e);
            },
        }
    }
    Ok(())
}

/// A copy of the dataset held for `resolution`.
pub fn get_store(stores: &StoreCache, resolution: u8) -> (r: Option<ReverseGeoStore>)
    ensures
        match r {
            Some(s) => stores@.contains_key(resolution) && s@ == stores@[resolution],
            None => !stores@.contains_key(resolution),
        },
{
    match stores.store(resolution) {
        Some(s) => Some(s.copy()),
        None => None,
    }
}

/// Replaces everything held with `test_stores`.
pub fn set_stores_for_testing(stores: &mut StoreCache, test_stores: HashMap<u8, ReverseGeoStore>)
    ensures
        final(stores)@ == views_of(test_stores@),
{
    stores.stores = test_stores;
}

/// Drops everything held.
pub fn clear_store_cache(stores: &mut StoreCache)
    ensures
        final(stores)@ == Map::<u8, Map<Seq<char>, LocationDetails>>::empty(),
{
    stores.stores.clear();
    assert(stores@ =~= Map::<u8, Map<Seq<char>, LocationDetails>>::empty());
}

/// A load that succeeds leaves a dataset for every supported resolution.
pub proof fn successful_load_holds_every_resolution<F: Fn(u8) -> Result<ReverseGeoStore, LakhuaError>>(
    read: F,
    before: Map<u8, Map<Seq<char>, LocationDetails>>,
    after: Map<u8, Map<Seq<char>, LocationDetails>>,
)
    requires
        load_outcome(read, before, after, Ok(())),
    ensures
        !before.dom().is_empty() ==> after == before,
        before.dom().is_empty() ==> after.contains_key(4) && after.contains_key(5),
{
    if before.dom().is_empty() {
        assert(loading_order()[0] == 4u8);
        assert(loading_order()[1] == 5u8);
        assert(first_resolutions(2).contains(4u8));
        assert(first_resolutions(2).contains(5u8));
    }
}

/// Loading happens once: after a load that succeeded, another load reads
/// nothing new, keeps what is held and succeeds.
pub proof fn load_happens_once<
    F: Fn(u8) -> Result<ReverseGeoStore, LakhuaError>,
    G: Fn(u8) -> Result<ReverseGeoStore, LakhuaError>,
>(
    read: F,
    read_again: G,
    before: Map<u8, Map<Seq<char>, LocationDetails>>,
    after: Map<u8, Map<Seq<char>, LocationDetails>>,
    later: Map<u8, Map<Seq<char>, LocationDetails>>,
    second: Result<(), LakhuaError>,
)
    requires
        load_outcome(read, before, after, Ok(())),
        load_outcome(read_again, after, later, second),
    ensures
        later == after,
        second is Ok,
{
    successful_load_holds_every_resolution(read, before, after);
    if before.dom().is_empty() {
        assert(after.dom().contains(4u8));
    } else {
        assert(before.dom() =~= after.dom());
        let k = before.dom().choose();
        assert(after.dom().contains(k));
    }
}

} // verus!
