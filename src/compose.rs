//! Composition of localized City responses, each with the name of its Region.

use vstd::prelude::*;
use crate::entity::{City, CityView, Region, RegionView};
use crate::model::{ErrorResponse, ErrorView, Language, lookup, lookup_name, name_key_of};
use crate::repository::{LocationsRepository, ReplyView, Store, batch_regions, region_outcome, cities_view, region_results, result_view};

verus! {

/// A City localized to one language, with the name of its Region.
#[derive(Debug)]
pub struct CityResponse {
    pub id: u64,
    pub is_featured: bool,
    pub country_iso: String,
    pub name: String,
    pub region_name: String,
}

/// The mathematical value of a [`CityResponse`].
pub struct CityResponseView {
    pub id: u64,
    pub is_featured: bool,
    pub country_iso: Seq<char>,
    pub name: Seq<char>,
    pub region_name: Seq<char>,
}

impl View for CityResponse {
    type V = CityResponseView;

    open spec fn view(&self) -> CityResponseView {
        CityResponseView {
            id: self.id,
            is_featured: self.is_featured,
            country_iso: self.country_iso@,
            name: self.name@,
            region_name: self.region_name@,
        }
    }
}

/// The response for `city` under name key `key`, given the outcome of fetching its Region. A
/// name missing from the City or the Region is a bad request naming the key.
pub open spec fn compose_one(
    city: CityView,
    region: Result<RegionView, ErrorView>,
    key: Seq<char>,
) -> Result<CityResponseView, ErrorView> {
    match region {
        Err(e) => Err(e),
        Ok(g) => match lookup(city.names, key) {
            None => Err(ErrorView::BadRequest(key)),
            Some(name) => match lookup(g.names, key) {
                None => Err(ErrorView::BadRequest(key)),
                Some(region_name) => Ok(CityResponseView {
                    id: city.id,
                    is_featured: city.is_featured,
                    country_iso: city.country_iso,
                    name,
                    region_name,
                }),
            },
        },
    }
}

/// The responses for a list of cities, in their order; the first city that fails decides
/// the error.
pub open spec fn compose_all(
    cities: Seq<CityView>,
    regions: Seq<Result<RegionView, ErrorView>>,
    key: Seq<char>,
) -> Result<Seq<CityResponseView>, ErrorView>
    decreases cities.len(),
{
    if cities.len() == 0 {
        Ok(Seq::empty())
    } else {
        match compose_all(cities.drop_last(), regions, key) {
            Err(e) => Err(e),
            Ok(rs) => match compose_one(cities.last(), regions[cities.len() - 1], key) {
                Err(e) => Err(e),
                Ok(r) => Ok(rs.push(r)),
            },
        }
    }
}

/// `resp` answers for `city` in `region` under name key `key`: same id, flag and country,
/// and the names of the City and of the Region stored under the key.
pub open spec fn responds_one(city: CityView, region: RegionView, resp: CityResponseView, key: Seq<char>) -> bool {
    &&& resp.id == city.id
    &&& resp.is_featured == city.is_featured
    &&& resp.country_iso == city.country_iso
    &&& lookup(city.names, key) == Some(resp.name)
    &&& lookup(region.names, key) == Some(resp.region_name)
}

/// `resps` answer for `cities` one by one, in the same order, each City in its Region as
/// `regions` holds it.
pub open spec fn responds_all(cities: Seq<CityView>, regions: Map<u64, RegionView>, resps: Seq<CityResponseView>, key: Seq<char>) -> bool {
    &&& resps.len() == cities.len()
    &&& forall|i: int| 0 <= i < cities.len() ==> regions.contains_key(#[trigger] cities[i].region_id)
        && responds_one(cities[i], regions[cities[i].region_id], resps[i], key)
}

/// The mathematical value of the outcome of a batch composition.
pub open spec fn responses_result(r: &Result<Vec<CityResponse>, ErrorResponse>) -> Result<Seq<CityResponseView>, ErrorView> {
    match r {
        Ok(v) => Ok(response_views(v@)),
        Err(e) => Err(e@),
    }
}

/// The Region id of each City.
pub open spec fn region_ids(cities: Seq<City>) -> Seq<u64> {
    cities.map_values(|c: City| c.region_id)
}

/// Composes the response for `city`, given the outcome of fetching its Region.
pub fn compose(city: &City, region: &Result<Region, ErrorResponse>, language: Language) -> (r: Result<CityResponse, ErrorResponse>)
    ensures
        result_view(&r) == compose_one(city@, result_view(region), name_key_of(language)),
{
    let g = match region {
        Err(e) => return Err(e.duplicate()),
        Ok(g) => g,
    };
    let key = language.name_key();
    let name = match lookup_name(&city.names, &key) {
        None => return Err(ErrorResponse::BadRequest(key)),
        Some(n) => n,
    };
    let region_name = match lookup_name(&g.names, &key) {
        None => return Err(ErrorResponse::BadRequest(key)),
        Some(n) => n,
    };
    Ok(CityResponse { id: city.id, is_featured: city.is_featured, country_iso: city.country_iso.clone(), name, region_name })
}

/// A later failure does not change the outcome once a prefix failed.
proof fn lemma_compose_all_prefix_err(
    cities: Seq<CityView>,
    regions: Seq<Result<RegionView, ErrorView>>,
    key: Seq<char>,
    i: int,
)
    requires
        0 <= i <= cities.len(),
        compose_all(cities.take(i), regions, key) is Err,
    ensures
        compose_all(cities, regions, key) == compose_all(cities.take(i), regions, key),
    decreases cities.len() - i,
{
    if i < cities.len() {
        assert(cities.take(i + 1).drop_last() =~= cities.take(i));
        lemma_compose_all_prefix_err(cities, regions, key, i + 1);
    } else {
        assert(cities.take(i) =~= cities);
    }
}

/// The views of a list of responses.
pub open spec fn response_views(rs: Seq<CityResponse>) -> Seq<CityResponseView> {
    rs.map_values(|r: CityResponse| r@)
}

/// Composes the responses for `cities`, the i-th with the i-th Region outcome, keeping the
/// order of the cities.
pub fn compose_cities(
    cities: &Vec<City>,
    regions: &Vec<Result<Region, ErrorResponse>>,
    language: Language,
) -> (r: Result<Vec<CityResponse>, ErrorResponse>)
    requires
        cities@.len() == regions@.len(),
    ensures
        match r {
            Ok(v) => compose_all(cities_view(cities@), region_results(regions@), name_key_of(language))
                == Ok::<Seq<CityResponseView>, ErrorView>(response_views(v@)),
            Err(e) => compose_all(cities_view(cities@), region_results(regions@), name_key_of(language))
                == Err::<Seq<CityResponseView>, ErrorView>(e@),
        },
{
    let ghost cv = cities_view(cities@);
    let ghost rv = region_results(regions@);
    let ghost key = name_key_of(language);
    let mut out: Vec<CityResponse> = Vec::new();
    let mut i: usize = 0;
    assert(cv.take(0) =~= Seq::<CityView>::empty());
    assert(response_views(out@) =~= Seq::<CityResponseView>::empty());
    while i < cities.len()
        invariant
            i <= cities@.len(),
            cities@.len() == regions@.len(),
            cv == cities_view(cities@),
            rv == region_results(regions@),
            key == name_key_of(language),
            compose_all(cv.take(i as int), rv, key) == Ok::<Seq<CityResponseView>, ErrorView>(response_views(out@)),
        decreases cities@.len() - i,
    {
        assert(cv.take(i + 1).drop_last() =~= cv.take(i as int));
        assert(cv.take(i + 1).last() == cv[i as int]);
        match compose(&cities[i], &regions[i], language) {
            Ok(c) => {
                let ghost before = out@;
                out.push(c);
                assert(response_views(out@) =~= response_views(before).push(c@));
            },
            Err(e) => {
                proof {
                    lemma_compose_all_prefix_err(cv, rv, key, i + 1);
                    assert(cv.take(cities@.len() as int) =~= cv);
                }
                return Err(e);
            },
        }
        i += 1;
    }
    assert(cv.take(cities@.len() as int) =~= cv);
    Ok(out)
}

/// A successful composition holds one response per city, in the order of the cities, each
/// composed from that city and its own Region outcome.
pub proof fn lemma_compose_all_in_order(
    cities: Seq<CityView>,
    regions: Seq<Result<RegionView, ErrorView>>,
    key: Seq<char>,
)
    requires
        compose_all(cities, regions, key) is Ok,
    ensures
        compose_all(cities, regions, key)->Ok_0.len() == cities.len(),
        forall|i: int| 0 <= i < cities.len() ==> compose_one(#[trigger] cities[i], regions[i], key)
            == Ok::<CityResponseView, ErrorView>(compose_all(cities, regions, key)->Ok_0[i]),
    decreases cities.len(),
{
    if cities.len() > 0 {
        let prefix = cities.drop_last();
        lemma_compose_all_in_order(prefix, regions, key);
        assert forall|i: int| 0 <= i < cities.len() implies compose_one(#[trigger] cities[i], regions[i], key)
            == Ok::<CityResponseView, ErrorView>(compose_all(cities, regions, key)->Ok_0[i]) by {
            if i < cities.len() - 1 {
                assert(prefix[i] == cities[i]);
            }
        }
    }
}

/// A failed composition fails at one of the cities, with that city's error.
pub proof fn lemma_compose_all_err(
    cities: Seq<CityView>,
    regions: Seq<Result<RegionView, ErrorView>>,
    key: Seq<char>,
)
    requires
        compose_all(cities, regions, key) is Err,
    ensures
        exists|i: int| 0 <= i < cities.len() && compose_one(#[trigger] cities[i], regions[i], key)
            == Err::<CityResponseView, ErrorView>(compose_all(cities, regions, key)->Err_0),
    decreases cities.len(),
{
    let prefix = cities.drop_last();
    if compose_all(prefix, regions, key) is Err {
        lemma_compose_all_err(prefix, regions, key);
        let i = choose|i: int| 0 <= i < prefix.len() && compose_one(#[trigger] prefix[i], regions[i], key)
            == Err::<CityResponseView, ErrorView>(compose_all(prefix, regions, key)->Err_0);
        assert(prefix[i] == cities[i]);
    } else {
        let last = cities.len() - 1;
        assert(cities[last] == cities.last());
    }
}

impl<S: Store> LocationsRepository<S> {
    /// Transforms `city` into its response in `language`, fetching its Region through the
    /// cache.
    pub fn into_resp(&mut self, city: &City, language: Language) -> (r: Result<CityResponse, ErrorResponse>)
        ensures
            old(self).cached().contains_key(city.region_id) ==> {
                &&& result_view(&r) == compose_one(city@, Ok(old(self).cached()[city.region_id]), name_key_of(language))
                &&& final(self).backing() == old(self).backing()
                &&& final(self).cached() == old(self).cached()
            },
            r matches Ok(resp) ==> final(self).cached().contains_key(city.region_id)
                && compose_one(city@, Ok(final(self).cached()[city.region_id]), name_key_of(language))
                    == Ok::<CityResponseView, ErrorView>(resp@),
            !old(self).cached().contains_key(city.region_id) ==> exists|reply: ReplyView|
                result_view(&r) == compose_one(city@, #[trigger] region_outcome(city.region_id, reply), name_key_of(language)),
            r matches Ok(resp) ==> final(self).cached().contains_key(city.region_id)
                && responds_one(city@, final(self).cached()[city.region_id], resp@, name_key_of(language)),
            lookup(city@.names, name_key_of(language)) is None ==> r is Err,
            r matches Err(e) ==> e is NotFound || e is InternalServerError
                || e@ == ErrorView::BadRequest(name_key_of(language)),
            forall|k: u64| #[trigger] old(self).cached().contains_key(k) ==> final(self).cached().contains_key(k)
                && final(self).cached()[k] == old(self).cached()[k],
    {
        let region = self.get_region(city.region_id);
        compose(city, &region, language)
    }

    /// Transforms `cities` into responses in `language`, keeping their order. The Regions
    /// that are not cached are fetched in one concurrent batch; the first city, in order,
    /// that fails decides the error.
    pub fn cities_into_resp(&mut self, cities: &Vec<City>, language: Language) -> (r: Result<Vec<CityResponse>, ErrorResponse>)
        ensures
            r matches Ok(v) ==> v@.len() == cities@.len() && forall|i: int| 0 <= i < cities@.len() ==> {
                &&& final(self).cached().contains_key(#[trigger] cities@[i].region_id)
                &&& compose_one(cities@[i]@, Ok(final(self).cached()[cities@[i].region_id]), name_key_of(language))
                    == Ok::<CityResponseView, ErrorView>(v@[i]@)
            },
            exists|replies: Seq<ReplyView>| responses_result(&r)
                == compose_all(cities_view(cities@), batch_regions(old(self).cached(), region_ids(cities@), replies), name_key_of(language)),
            r matches Ok(v) ==> responds_all(cities_view(cities@), final(self).cached(), response_views(v@), name_key_of(language)),
            (exists|i: int| 0 <= i < cities@.len() && lookup((#[trigger] cities@[i])@.names, name_key_of(language)) is None)
                ==> r is Err,
            r matches Err(e) ==> e is NotFound || e is InternalServerError
                || e@ == ErrorView::BadRequest(name_key_of(language)),
            (forall|i: int| 0 <= i < cities@.len() ==> old(self).cached().contains_key(#[trigger] cities@[i].region_id)) ==> {
                &&& final(self).backing() == old(self).backing()
                &&& final(self).cached() == old(self).cached()
                &&& match r {
                    Ok(v) => compose_all(cities_view(cities@), cached_regions_of(old(self).cached(), cities@), name_key_of(language))
                        == Ok::<Seq<CityResponseView>, ErrorView>(response_views(v@)),
                    Err(e) => compose_all(cities_view(cities@), cached_regions_of(old(self).cached(), cities@), name_key_of(language))
                        == Err::<Seq<CityResponseView>, ErrorView>(e@),
                }
            },
            forall|k: u64| #[trigger] old(self).cached().contains_key(k) ==> final(self).cached().contains_key(k)
                && final(self).cached()[k] == old(self).cached()[k],
    {
        let mut ids: Vec<u64> = Vec::new();
        let mut i: usize = 0;
        while i < cities.len()
            invariant
                i <= cities@.len(),
                *self == *old(self),
                ids@.len() == i,
                forall|l: int| 0 <= l < i ==> #[trigger] ids@[l] == cities@[l].region_id,
            decreases cities@.len() - i,
        {
            ids.push(cities[i].region_id);
            i += 1;
        }
        let regions = self.get_regions(&ids);
        let r = compose_cities(cities, &regions, language);
        proof {
            let cv = cities_view(cities@);
            let rv = region_results(regions@);
            let key = name_key_of(language);
            assert(ids@ =~= region_ids(cities@));
            let replies = choose|replies: Seq<ReplyView>| region_results(regions@) == batch_regions(old(self).cached(), ids@, replies);
            assert(responses_result(&r) == compose_all(cv, batch_regions(old(self).cached(), region_ids(cities@), replies), key));
            if r is Ok {
                lemma_compose_all_in_order(cv, rv, key);
                assert forall|i: int| 0 <= i < cities@.len() implies {
                    &&& final(self).cached().contains_key(#[trigger] cities@[i].region_id)
                    &&& compose_one(cities@[i]@, Ok(final(self).cached()[cities@[i].region_id]), key)
                        == Ok::<CityResponseView, ErrorView>(r->Ok_0@[i]@)
                } by {
                    assert(cv[i] == cities@[i]@);
                    assert(ids@[i] == cities@[i].region_id);
                    assert(rv[i] == result_view(&regions@[i]));
                    assert(response_views(r->Ok_0@)[i] == r->Ok_0@[i]@);
                }
                assert forall|i: int| 0 <= i < cv.len() implies final(self).cached().contains_key(#[trigger] cv[i].region_id)
                    && responds_one(cv[i], final(self).cached()[cv[i].region_id], response_views(r->Ok_0@)[i], key) by {
                    assert(cv[i] == cities@[i]@);
                    assert(response_views(r->Ok_0@)[i] == r->Ok_0@[i]@);
                }
            }
            if exists|i: int| 0 <= i < cities@.len() && lookup((#[trigger] cities@[i])@.names, key) is None {
                let i = choose|i: int| 0 <= i < cities@.len() && lookup((#[trigger] cities@[i])@.names, key) is None;
                if r is Ok {
                    lemma_compose_all_in_order(cv, rv, key);
                    assert(cv[i] == cities@[i]@);
                }
            }
            if r is Err {
                lemma_compose_all_err(cv, rv, key);
                let i = choose|i: int| 0 <= i < cv.len()
                    && compose_one(#[trigger] cv[i], rv[i], key) == Err::<CityResponseView, ErrorView>(r->Err_0@);
                assert(rv[i] == result_view(&regions@[i]));
                assert(regions@[i] matches Err(e) ==> e is NotFound || e is InternalServerError);
            }
            if forall|i: int| 0 <= i < cities@.len() ==> old(self).cached().contains_key(#[trigger] cities@[i].region_id) {
                assert forall|i: int| 0 <= i < ids@.len() implies old(self).cached().contains_key(#[trigger] ids@[i]) by {
                    assert(ids@[i] == cities@[i].region_id);
                }
                assert(rv =~= cached_regions_of(old(self).cached(), cities@)) by {
                    assert forall|i: int| 0 <= i < rv.len() implies rv[i] == cached_regions_of(old(self).cached(), cities@)[i] by {
                        assert(ids@[i] == cities@[i].region_id);
                    }
                }
            }
        }
        r
    }
}

/// The cached Region of each city, as fetch outcomes.
pub open spec fn cached_regions_of(cache: Map<u64, RegionView>, cities: Seq<City>) -> Seq<Result<RegionView, ErrorView>> {
    cities.map_values(|c: City| Ok::<RegionView, ErrorView>(cache[c.region_id]))
}

} // verus!
