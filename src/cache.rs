//! The Region cache: a concurrent map from Region id to Region, filled on first fetch and
//! never invalidated.

use vstd::prelude::*;
use dashmap::DashMap;
use crate::entity::{Region, RegionView};

verus! {

/// The concurrent map of the `dashmap` crate, held opaque: what the library knows of its
/// contents is what the wrappers below state through [`cached_regions`].
#[verifier::external_type_specification]
#[verifier::external_body]
#[verifier::reject_recursive_types(K)]
#[verifier::reject_recursive_types(V)]
#[verifier::reject_recursive_types(S)]
pub struct ExDashMap<K, V, S>(DashMap<K, V, S>);

/// The Regions held by a cache map, by id.
pub uninterp spec fn cached_regions(m: DashMap<u64, Region>) -> Map<u64, RegionView>;

/// The contents of an empty cache.
pub open spec fn no_regions() -> Map<u64, RegionView> {
    Map::empty()
}

/// Relies on `DashMap::new`: a new map is empty.
#[verifier::external_body]
pub(crate) fn new_region_map() -> (r: DashMap<u64, Region>)
    ensures
        cached_regions(r) == no_regions(),
{
    DashMap::new()
}

/// Relies on `DashMap::get`: the entry stored under `id`, if any, which is copied out.
#[verifier::external_body]
pub(crate) fn region_map_get(m: &DashMap<u64, Region>, id: u64) -> (r: Option<Region>)
    ensures
        r is Some <==> cached_regions(*m).contains_key(id),
        r matches Some(g) ==> g@ == cached_regions(*m)[id],
{
    m.get(&id).map(|entry| entry.value().clone())
}

/// Relies on `DashMap::contains_key`: whether an entry is stored under `id`.
#[verifier::external_body]
pub(crate) fn region_map_contains(m: &DashMap<u64, Region>, id: u64) -> (r: bool)
    ensures
        r == cached_regions(*m).contains_key(id),
{
    m.contains_key(&id)
}

/// Relies on `DashMap::insert`: afterwards `id` maps to `region`, other entries are kept.
#[verifier::external_body]
pub(crate) fn region_map_insert(m: &mut DashMap<u64, Region>, id: u64, region: Region)
    ensures
        cached_regions(*final(m)) == cached_regions(*old(m)).insert(id, region@),
{
    m.insert(id, region);
}

} // verus!
