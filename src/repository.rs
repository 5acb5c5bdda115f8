//! The repository facade: City and Region lookups, searches, and the Region cache, over any
//! backing store.

use vstd::prelude::*;
use dashmap::DashMap;
use crate::cache::{cached_regions, new_region_map, no_regions, region_map_contains, region_map_get, region_map_insert};
use crate::entity::{
    City, CityView, Document, DocView, EntityKind, Region, RegionView, city_decodes, city_of,
    city_invalid_field, entity_name, index_name, invalid_field_message, region_decodes, region_invalid_field,
    region_of,
};
use crate::model::{Coordinates, ErrorResponse, ErrorView, Language};
use crate::query::{
    closest_request, excluded_fields, featured_request, get_request, search_request, GetRequest,
    SearchRequest, FEATURED_SIZE, SEARCH_SIZE,
};
use crate::text::{decimal, push_decimal};

verus! {

/// Why an exchange with the backing store produced no answer to decode.
#[derive(Debug)]
pub struct StoreError {
    /// The status the store answered with, or `None` where no answer came.
    pub status: Option<u16>,
    /// The upstream description of the failure.
    pub description: String,
}

/// Access to the backing store. Each method performs the exchange and hands back the decoded
/// JSON sources, or why there are none.
pub trait Store {
    /// Fetches one document by id.
    fn get(&mut self, request: &GetRequest) -> Result<Document, StoreError>;

    /// Runs a search; the reply holds the source of each hit, in rank order.
    fn search(&mut self, request: &SearchRequest) -> Result<Vec<Document>, StoreError>;

    /// Fetches several documents, possibly concurrently; one reply per request, in the order
    /// of the requests.
    fn get_all(&mut self, requests: &Vec<GetRequest>) -> Vec<Result<Document, StoreError>>;
}

/// The mathematical value of a store reply: the document, or the status and description.
pub type ReplyView = Result<DocView, (Option<u16>, Seq<char>)>;

pub open spec fn reply_view(r: &Result<Document, StoreError>) -> ReplyView {
    match r {
        Ok(d) => Ok(d.deep_view()),
        Err(e) => Err((e.status, e.description@)),
    }
}

pub open spec fn replies_view(r: &Result<Vec<Document>, StoreError>) -> Result<Seq<DocView>, (Option<u16>, Seq<char>)> {
    match r {
        Ok(ds) => Ok(ds.deep_view()),
        Err(e) => Err((e.status, e.description@)),
    }
}

/// The mathematical value of an outcome.
pub open spec fn result_view<T: View>(r: &Result<T, ErrorResponse>) -> Result<T::V, ErrorView> {
    match r {
        Ok(t) => Ok(t@),
        Err(e) => Err(e@),
    }
}

/// The views of a list of cities.
pub open spec fn cities_view(cs: Seq<City>) -> Seq<CityView> {
    cs.map_values(|c: City| c@)
}

/// Detail of the error for an entity that does not exist, e.g. `City#7 not found.`.
pub open spec fn not_found_message(kind: EntityKind, id: u64) -> Seq<char> {
    entity_name(kind) + "#"@ + decimal(id as nat) + " not found."@
}

/// Detail of the error for a failed exchange with the store.
pub open spec fn upstream_message(description: Seq<char>) -> Seq<char> {
    "Elasticsearch error: "@ + description
}

/// The outcome of a point lookup that the store did not answer with a document: a not-found
/// status is `NotFound`, anything else an internal error.
pub open spec fn get_failure(kind: EntityKind, id: u64, status: Option<u16>, description: Seq<char>) -> ErrorView {
    if status == Some(404u16) {
        ErrorView::NotFound(not_found_message(kind, id))
    } else {
        ErrorView::InternalServerError(upstream_message(description))
    }
}

/// The outcome of fetching City `id`, given the store's reply.
pub open spec fn city_outcome(id: u64, reply: ReplyView) -> Result<CityView, ErrorView> {
    match reply {
        Err((status, description)) => Err(get_failure(EntityKind::City, id, status, description)),
        Ok(doc) => if city_decodes(doc) {
            Ok(city_of(doc))
        } else {
            Err(ErrorView::InternalServerError(invalid_field_message(EntityKind::City, city_invalid_field(doc))))
        },
    }
}

/// The outcome of fetching Region `id`, given the store's reply.
pub open spec fn region_outcome(id: u64, reply: ReplyView) -> Result<RegionView, ErrorView> {
    match reply {
        Err((status, description)) => Err(get_failure(EntityKind::Region, id, status, description)),
        Ok(doc) => if region_decodes(doc) {
            Ok(region_of(doc))
        } else {
            Err(ErrorView::InternalServerError(invalid_field_message(EntityKind::Region, region_invalid_field(doc))))
        },
    }
}

/// The outcome of decoding the hits of a search, in order: the first hit that does not
/// decode decides the error.
pub open spec fn decode_cities(docs: Seq<DocView>) -> Result<Seq<CityView>, ErrorView>
    decreases docs.len(),
{
    if docs.len() == 0 {
        Ok(Seq::empty())
    } else {
        match decode_cities(docs.drop_last()) {
            Err(e) => Err(e),
            Ok(cs) => if city_decodes(docs.last()) {
                Ok(cs.push(city_of(docs.last())))
            } else {
                Err(ErrorView::InternalServerError(invalid_field_message(EntityKind::City, city_invalid_field(docs.last()))))
            },
        }
    }
}

/// The outcome of a City search, given the store's reply.
pub open spec fn search_outcome(reply: Result<Seq<DocView>, (Option<u16>, Seq<char>)>) -> Result<Seq<CityView>, ErrorView> {
    match reply {
        Err((_, description)) => Err(ErrorView::InternalServerError(upstream_message(description))),
        Ok(docs) => decode_cities(docs),
    }
}

/// Once the hits of a prefix fail to decode, so do the hits of every longer list.
proof fn lemma_decode_cities_prefix_err(docs: Seq<DocView>, i: int)
    requires
        0 <= i <= docs.len(),
        decode_cities(docs.take(i)) is Err,
    ensures
        decode_cities(docs) == decode_cities(docs.take(i)),
    decreases docs.len() - i,
{
    if i < docs.len() {
        assert(docs.take(i + 1).drop_last() =~= docs.take(i));
        lemma_decode_cities_prefix_err(docs, i + 1);
    } else {
        assert(docs.take(i) =~= docs);
    }
}

/// Detail of the internal error for a geo-nearest search that found `n` cities, `n` not one.
pub open spec fn single_failure(n: nat) -> Seq<char> {
    if n == 0 {
        "Called single() on empty iterator"@
    } else {
        "Called single() on multiple-element iterator"@
    }
}

/// Relies on `single::Single::single`: the one element of a one-element list; for an empty
/// list the error `NoElements`, for a longer one `MultipleElements`, whose texts are
/// rendered.
#[verifier::external_body]
fn single_city(cities: Vec<City>) -> (r: Result<City, String>)
    ensures
        r is Ok <==> cities@.len() == 1,
        r matches Ok(c) ==> c == cities@[0],
        r matches Err(m) ==> m@ == single_failure(cities@.len()),
{
    single::Single::single(cities.into_iter()).map_err(|e| e.to_string())
}

/// The outcome of a geo-nearest search, given the cities found: exactly one is expected.
pub open spec fn closest_outcome(cities: Seq<CityView>) -> Result<CityView, ErrorView> {
    if cities.len() == 1 {
        Ok(cities[0])
    } else {
        Err(ErrorView::InternalServerError(single_failure(cities.len())))
    }
}

/// The mathematical value of the outcome of a search.
pub open spec fn cities_result(r: &Result<Vec<City>, ErrorResponse>) -> Result<Seq<CityView>, ErrorView> {
    match r {
        Ok(cs) => Ok(cities_view(cs@)),
        Err(e) => Err(e@),
    }
}

/// The outcome of a geo-nearest search, given the store's reply.
pub open spec fn closest_search_outcome(reply: Result<Seq<DocView>, (Option<u16>, Seq<char>)>) -> Result<CityView, ErrorView> {
    match search_outcome(reply) {
        Ok(cs) => closest_outcome(cs),
        Err(e) => Err(e),
    }
}

/// The outcome of a failed exchange that did not fetch an entity by id.
pub fn upstream_failure(e: &StoreError) -> (r: ErrorResponse)
    ensures
        r@ == ErrorView::InternalServerError(upstream_message(e.description@)),
{
    let mut m = String::from_str("Elasticsearch error: ");
    m.append(e.description.as_str());
    ErrorResponse::InternalServerError(m)
}

/// The outcome of a point lookup of entity `kind` #`id` that the store did not answer with a
/// document.
pub fn get_failure_of(kind: EntityKind, id: u64, e: &StoreError) -> (r: ErrorResponse)
    ensures
        r@ == get_failure(kind, id, e.status, e.description@),
{
    if e.status == Some(404u16) {
        let mut m = kind.entity();
        m.append("#");
        push_decimal(&mut m, id);
        m.append(" not found.");
        assert(m@ =~= not_found_message(kind, id));
        ErrorResponse::NotFound(m)
    } else {
        upstream_failure(e)
    }
}

/// The outcome of fetching City `id`, given the store's reply.
pub fn city_from_reply(id: u64, reply: Result<Document, StoreError>) -> (r: Result<City, ErrorResponse>)
    ensures
        result_view(&r) == city_outcome(id, reply_view(&reply)),
{
    match reply {
        Err(e) => Err(get_failure_of(EntityKind::City, id, &e)),
        Ok(doc) => City::from_document(&doc),
    }
}

/// The outcome of fetching Region `id`, given the store's reply.
pub fn region_from_reply(id: u64, reply: &Result<Document, StoreError>) -> (r: Result<Region, ErrorResponse>)
    ensures
        result_view(&r) == region_outcome(id, reply_view(reply)),
{
    match reply {
        Err(e) => Err(get_failure_of(EntityKind::Region, id, e)),
        Ok(doc) => Region::from_document(doc),
    }
}

/// The outcome of a City search, given the store's reply.
pub fn cities_from_reply(reply: &Result<Vec<Document>, StoreError>) -> (r: Result<Vec<City>, ErrorResponse>)
    ensures
        cities_result(&r) == search_outcome(replies_view(reply)),
        r matches Err(e) ==> e is InternalServerError,
{
    let ghost rv = replies_view(reply);
    let docs = match reply {
        Err(e) => return Err(upstream_failure(e)),
        Ok(docs) => docs,
    };
    assert(rv == Ok::<Seq<DocView>, (Option<u16>, Seq<char>)>(docs.deep_view()));
    let mut cities: Vec<City> = Vec::new();
    let mut i: usize = 0;
    assert(docs.deep_view().take(0) =~= Seq::<DocView>::empty());
    assert(cities_view(cities@) =~= Seq::<CityView>::empty());
    assert(decode_cities(Seq::<DocView>::empty()) == Ok::<Seq<CityView>, ErrorView>(Seq::empty()));
    while i < docs.len()
        invariant
            i <= docs@.len(),
            rv == replies_view(reply),
            rv == Ok::<Seq<DocView>, (Option<u16>, Seq<char>)>(docs.deep_view()),
            decode_cities(docs.deep_view().take(i as int)) == Ok::<Seq<CityView>, ErrorView>(cities_view(cities@)),
        decreases docs@.len() - i,
    {
        let ghost dv = docs.deep_view();
        assert(dv.take(i + 1).drop_last() =~= dv.take(i as int));
        assert(dv.take(i + 1).last() == dv[i as int]);
        match City::from_document(&docs[i]) {
            Ok(c) => {
                let ghost before = cities@;
                assert(c@ == city_of(dv[i as int]));
                cities.push(c);
                assert(cities_view(cities@) =~= cities_view(before).push(c@));
            },
            Err(e) => {
                proof {
                    assert(decode_cities(dv.take(i + 1)) == Err::<Seq<CityView>, ErrorView>(e@));
                    lemma_decode_cities_prefix_err(dv, i + 1);
                    assert(dv.take(docs@.len() as int) =~= dv);
                    assert(search_outcome(rv) == Err::<Seq<CityView>, ErrorView>(e@));
                }
                return Err(e);
            },
        }
        i += 1;
    }
    assert(docs.deep_view().take(docs@.len() as int) =~= docs.deep_view());
    Ok(cities)
}

/// The views of a list of Region outcomes.
pub open spec fn region_results(rs: Seq<Result<Region, ErrorResponse>>) -> Seq<Result<RegionView, ErrorView>> {
    rs.map_values(|r: Result<Region, ErrorResponse>| result_view(&r))
}

/// The views of a list of store replies.
pub open spec fn reply_views(rs: Seq<Result<Document, StoreError>>) -> Seq<ReplyView> {
    rs.map_values(|r: Result<Document, StoreError>| reply_view(&r))
}

/// Detail of the error for a Region that a batch fetch returned no reply for.
pub open spec fn no_reply_message() -> Seq<char> {
    "Elasticsearch error: no reply"@
}

/// The distinct ids of `ids` that `cache` does not hold, in order of first occurrence.
pub open spec fn distinct_misses(ids: Seq<u64>, cache: Map<u64, RegionView>) -> Seq<u64>
    decreases ids.len(),
{
    if ids.len() == 0 {
        Seq::empty()
    } else {
        let prev = distinct_misses(ids.drop_last(), cache);
        let id = ids.last();
        if cache.contains_key(id) || prev.contains(id) { prev } else { prev.push(id) }
    }
}

/// `misses` holds each id of `ids` that `cache` lacks exactly once, and nothing else.
pub open spec fn misses_of(ids: Seq<u64>, cache: Map<u64, RegionView>, misses: Seq<u64>) -> bool {
    &&& forall|j: int, l: int| 0 <= j < l < misses.len() ==> misses[j] != misses[l]
    &&& forall|j: int| 0 <= j < misses.len() ==> !cache.contains_key(#[trigger] misses[j]) && ids.contains(misses[j])
    &&& forall|i: int| 0 <= i < ids.len() && !cache.contains_key(#[trigger] ids[i]) ==> misses.contains(ids[i])
}

/// The outcome for the `j`-th missing id, given the replies of the batch fetch: a missing
/// reply is an internal error.
pub open spec fn miss_outcome(misses: Seq<u64>, replies: Seq<ReplyView>, j: int) -> Result<RegionView, ErrorView> {
    if j < replies.len() {
        region_outcome(misses[j], replies[j])
    } else {
        Err(ErrorView::InternalServerError(no_reply_message()))
    }
}

/// The outcome for each id of a batch Region lookup: the cached Region, or the outcome of
/// the reply to that id's request in the batch of misses.
pub open spec fn batch_regions(cache: Map<u64, RegionView>, ids: Seq<u64>, replies: Seq<ReplyView>) -> Seq<Result<RegionView, ErrorView>> {
    let misses = distinct_misses(ids, cache);
    ids.map_values(|id: u64|
        if cache.contains_key(id) { Ok(cache[id]) } else { miss_outcome(misses, replies, misses.index_of(id)) }
    )
}

/// The distinct ids of `ids` whose Region the cache `m` does not hold, in order of first
/// occurrence.
pub fn miss_ids(ids: &Vec<u64>, m: &DashMap<u64, Region>) -> (r: Vec<u64>)
    ensures
        r@ == distinct_misses(ids@, cached_regions(*m)),
        misses_of(ids@, cached_regions(*m), r@),
{
    let ghost cache = cached_regions(*m);
    let mut misses: Vec<u64> = Vec::new();
    let mut i: usize = 0;
    assert(ids@.take(0) =~= Seq::<u64>::empty());
    while i < ids.len()
        invariant
            i <= ids@.len(),
            cache == cached_regions(*m),
            misses@ == distinct_misses(ids@.take(i as int), cache),
            misses_of(ids@.take(i as int), cache, misses@),
        decreases ids@.len() - i,
    {
        let ghost prefix = ids@.take(i + 1);
        assert(prefix.drop_last() =~= ids@.take(i as int));
        assert(prefix.last() == ids@[i as int]);
        let id = ids[i];
        let ghost before = misses@;
        if !region_map_contains(m, id) && !contains_id(&misses, id) {
            misses.push(id);
        }
        assert forall|j: int| 0 <= j < misses@.len() implies !cache.contains_key(#[trigger] misses@[j]) && prefix.contains(misses@[j]) by {
            if j < before.len() {
                let k = choose|k: int| 0 <= k < i && ids@.take(i as int)[k] == before[j];
                assert(prefix[k] == before[j]);
            } else {
                assert(prefix[i as int] == id);
            }
        }
        assert forall|l: int| 0 <= l < prefix.len() && !cache.contains_key(#[trigger] prefix[l]) implies misses@.contains(prefix[l]) by {
            if l < i {
                assert(ids@.take(i as int)[l] == prefix[l]);
                let k = choose|k: int| 0 <= k < before.len() && before[k] == prefix[l];
                assert(misses@[k] == prefix[l]);
            } else if before.contains(id) {
            } else {
                assert(misses@[before.len() as int] == id);
            }
        }
        i += 1;
    }
    assert(ids@.take(ids@.len() as int) =~= ids@);
    misses
}

/// The point lookups of the Regions with the given ids, in order.
pub fn region_requests(ids: &Vec<u64>) -> (r: Vec<GetRequest>)
    ensures
        r@.len() == ids@.len(),
        forall|j: int| 0 <= j < ids@.len() ==> {
            &&& (#[trigger] r@[j]).index@ == index_name(EntityKind::Region)
            &&& r@[j].id == ids@[j]
            &&& r@[j].source_excludes.deep_view() == excluded_fields()
        },
{
    let mut r: Vec<GetRequest> = Vec::new();
    let mut j: usize = 0;
    while j < ids.len()
        invariant
            j <= ids@.len(),
            r@.len() == j,
            forall|l: int| 0 <= l < j ==> {
                &&& (#[trigger] r@[l]).index@ == index_name(EntityKind::Region)
                &&& r@[l].id == ids@[l]
                &&& r@[l].source_excludes.deep_view() == excluded_fields()
            },
        decreases ids@.len() - j,
    {
        r.push(get_request(EntityKind::Region, ids[j]));
        j += 1;
    }
    r
}

/// The outcome for each missing id, given the replies of the batch fetch, in order.
pub fn region_outcomes(misses: &Vec<u64>, replies: &Vec<Result<Document, StoreError>>) -> (r: Vec<Result<Region, ErrorResponse>>)
    ensures
        r@.len() == misses@.len(),
        forall|j: int| 0 <= j < misses@.len() ==> result_view(&#[trigger] r@[j]) == miss_outcome(misses@, reply_views(replies@), j),
{
    let mut r: Vec<Result<Region, ErrorResponse>> = Vec::new();
    let mut j: usize = 0;
    while j < misses.len()
        invariant
            j <= misses@.len(),
            r@.len() == j,
            forall|l: int| 0 <= l < j ==> result_view(&#[trigger] r@[l]) == miss_outcome(misses@, reply_views(replies@), l),
        decreases misses@.len() - j,
    {
        let outcome = if j < replies.len() {
            region_from_reply(misses[j], &replies[j])
        } else {
            Err(ErrorResponse::InternalServerError(String::from_str("Elasticsearch error: no reply")))
        };
        r.push(outcome);
        j += 1;
    }
    r
}

fn contains_id(ids: &Vec<u64>, id: u64) -> (r: bool)
    ensures
        r == ids@.contains(id),
{
    let mut j: usize = 0;
    while j < ids.len()
        invariant
            j <= ids@.len(),
            forall|l: int| 0 <= l < j ==> ids@[l] != id,
        decreases ids@.len() - j,
    {
        if ids[j] == id {
            return true;
        }
        j += 1;
    }
    false
}

fn position_of(ids: &Vec<u64>, id: u64) -> (r: Option<usize>)
    ensures
        r matches Some(j) ==> j < ids@.len() && ids@[j as int] == id,
        r is None ==> !ids@.contains(id),
{
    let mut j: usize = 0;
    while j < ids.len()
        invariant
            j <= ids@.len(),
            forall|l: int| 0 <= l < j ==> ids@[l] != id,
        decreases ids@.len() - j,
    {
        if ids[j] == id {
            return Some(j);
        }
        j += 1;
    }
    None
}

/// A search outcome with at most `n` cities: the first `n` where the store returned more.
pub open spec fn capped(o: Result<Seq<CityView>, ErrorView>, n: nat) -> Result<Seq<CityView>, ErrorView> {
    match o {
        Ok(cs) => Ok(if cs.len() > n { cs.take(n as int) } else { cs }),
        Err(e) => Err(e),
    }
}

/// Keeps at most the first `n` cities of a search outcome.
pub fn cap(r: Result<Vec<City>, ErrorResponse>, n: u32) -> (c: Result<Vec<City>, ErrorResponse>)
    ensures
        cities_result(&c) == capped(cities_result(&r), n as nat),
        c matches Ok(v) ==> v@.len() <= n,
{
    match r {
        Ok(mut v) => {
            let ghost before = v@;
            v.truncate(n as usize);
            assert(cities_view(v@) =~= if before.len() > n { cities_view(before).take(n as int) } else { cities_view(before) });
            Ok(v)
        },
        Err(e) => Err(e),
    }
}

/// Repository of City and Region entities over a backing store. Regions are cached for the
/// repository's lifetime: once fetched, never fetched again.
pub struct LocationsRepository<S: Store> {
    pub store: S,
    regions: DashMap<u64, Region>,
}

/// What one Region lookup does. A cached Region is returned without any exchange with the
/// store; otherwise the fetched Region is cached, and a failure leaves the cache as it was.
pub open spec fn region_lookup<S>(
    store: S,
    cache: Map<u64, RegionView>,
    id: u64,
    r: Result<RegionView, ErrorView>,
    store_after: S,
    cache_after: Map<u64, RegionView>,
) -> bool {
    if cache.contains_key(id) {
        &&& r == Ok::<RegionView, ErrorView>(cache[id])
        &&& store_after == store
        &&& cache_after == cache
    } else {
        &&& exists|reply: ReplyView| r == region_outcome(id, reply)
        &&& match r {
            Ok(g) => cache_after == cache.insert(id, g),
            Err(e) => cache_after == cache && (e is NotFound || e is InternalServerError),
        }
    }
}

impl<S: Store> LocationsRepository<S> {
    /// The backing store.
    pub closed spec fn backing(&self) -> S {
        self.store
    }

    /// The cached Regions, by id.
    pub closed spec fn cached(&self) -> Map<u64, RegionView> {
        cached_regions(self.regions)
    }

    /// A repository over `store`, with an empty Region cache.
    pub fn new(store: S) -> (r: Self)
        ensures
            r.backing() == store,
            r.cached() == no_regions(),
    {
        LocationsRepository { store, regions: new_region_map() }
    }

    /// Gets City `id`: the outcome of the store's reply to a point lookup in the City
    /// collection.
    pub fn get_city(&mut self, id: u64) -> (r: Result<City, ErrorResponse>)
        ensures
            exists|reply: ReplyView| result_view(&r) == city_outcome(id, reply),
            final(self).cached() == old(self).cached(),
            r matches Err(e) ==> e is NotFound || e is InternalServerError,
    {
        let reply = self.store.get(&get_request(EntityKind::City, id));
        let ghost rv = reply_view(&reply);
        let r = city_from_reply(id, reply);
        assert(result_view(&r) == city_outcome(id, rv));
        r
    }

    /// Gets Region `id`, from the cache where it is there.
    pub fn get_region(&mut self, id: u64) -> (r: Result<Region, ErrorResponse>)
        ensures
            region_lookup(old(self).backing(), old(self).cached(), id, result_view(&r), final(self).backing(), final(self).cached()),
    {
        if let Some(region) = region_map_get(&self.regions, id) {
            return Ok(region);
        }
        let reply = self.store.get(&get_request(EntityKind::Region, id));
        let region = region_from_reply(id, &reply);
        assert(result_view(&region) == region_outcome(id, reply_view(&reply)));
        let region = region?;
        region_map_insert(&mut self.regions, id, region.duplicate());
        Ok(region)
    }

    /// Fetches the Region of each id: cached ones from the cache, the others in one
    /// concurrent batch of point lookups, each distinct id once, in order of first
    /// occurrence. The fetched Regions are cached. The i-th outcome belongs to the i-th id.
    pub fn get_regions(&mut self, ids: &Vec<u64>) -> (r: Vec<Result<Region, ErrorResponse>>)
        ensures
            r@.len() == ids@.len(),
            exists|replies: Seq<ReplyView>| region_results(r@) == batch_regions(old(self).cached(), ids@, replies),
            forall|i: int| 0 <= i < ids@.len() ==> match #[trigger] r@[i] {
                Ok(g) => final(self).cached().contains_key(ids@[i]) && final(self).cached()[ids@[i]] == g@,
                Err(e) => e is NotFound || e is InternalServerError,
            },
            forall|k: u64| #[trigger] old(self).cached().contains_key(k) ==> final(self).cached().contains_key(k)
                && final(self).cached()[k] == old(self).cached()[k],
            forall|k: u64| #[trigger] final(self).cached().contains_key(k) ==> old(self).cached().contains_key(k)
                || ids@.contains(k),
            (forall|i: int| 0 <= i < ids@.len() ==> old(self).cached().contains_key(#[trigger] ids@[i]))
                ==> final(self).backing() == old(self).backing() && final(self).cached() == old(self).cached(),
    {
        let ghost cache0 = self.cached();
        let misses = miss_ids(ids, &self.regions);
        let mut outcomes: Vec<Result<Region, ErrorResponse>> = Vec::new();
        let ghost mut replies_v: Seq<ReplyView> = Seq::empty();
        if misses.len() > 0 {
            let replies = self.store.get_all(&region_requests(&misses));
            proof { replies_v = reply_views(replies@); }
            outcomes = region_outcomes(&misses, &replies);
            let mut j: usize = 0;
            while j < misses.len()
                invariant
                    j <= misses@.len(),
                    outcomes@.len() == misses@.len(),
                    misses_of(ids@, cache0, misses@),
                    forall|l: int| 0 <= l < misses@.len() ==> result_view(&#[trigger] outcomes@[l]) == miss_outcome(misses@, replies_v, l),
                    forall|k: u64| #[trigger] cache0.contains_key(k) ==> self.cached().contains_key(k)
                        && self.cached()[k] == cache0[k],
                    forall|k: u64| #[trigger] self.cached().contains_key(k) ==> cache0.contains_key(k)
                        || exists|l: int| 0 <= l < j && misses@[l] == k,
                    forall|l: int| 0 <= l < j ==> match #[trigger] outcomes@[l] {
                        Ok(g) => self.cached().contains_key(misses@[l]) && self.cached()[misses@[l]] == g@,
                        Err(_) => !self.cached().contains_key(misses@[l]),
                    },
                    forall|l: int| j <= l < misses@.len() ==> !self.cached().contains_key(#[trigger] misses@[l]),
                decreases misses@.len() - j,
            {
                let id = misses[j];
                assert(!cache0.contains_key(misses@[j as int]));
                if let Ok(g) = &outcomes[j] {
                    region_map_insert(&mut self.regions, id, g.duplicate());
                }
                proof {
                    assert forall|l: int| 0 <= l < j + 1 implies match #[trigger] outcomes@[l] {
                        Ok(g) => self.cached().contains_key(misses@[l]) && self.cached()[misses@[l]] == g@,
                        Err(_) => !self.cached().contains_key(misses@[l]),
                    } by {
                        if l < j {
                            assert(misses@[l] != misses@[j as int]);
                        }
                    }
                    assert forall|l: int| j + 1 <= l < misses@.len() implies !self.cached().contains_key(#[trigger] misses@[l]) by {
                        assert(misses@[l] != misses@[j as int]);
                    }
                    assert forall|k: u64| #[trigger] self.cached().contains_key(k) implies cache0.contains_key(k)
                        || exists|l: int| 0 <= l < j + 1 && misses@[l] == k by {
                        if k == id {
                            assert(misses@[j as int] == k);
                        }
                    }
                }
                j += 1;
            }
        }
        proof {
            assert forall|k: u64| #[trigger] self.cached().contains_key(k) implies cache0.contains_key(k) || ids@.contains(k) by {
                if !cache0.contains_key(k) {
                    let l = choose|l: int| 0 <= l < misses@.len() && misses@[l] == k;
                    assert(ids@.contains(misses@[l]));
                }
            }
        }
        // One outcome per id, in the order of the ids.
        let mut r: Vec<Result<Region, ErrorResponse>> = Vec::new();
        let mut i: usize = 0;
        while i < ids.len()
            invariant
                i <= ids@.len(),
                r@.len() == i,
                outcomes@.len() == misses@.len(),
                misses@ == distinct_misses(ids@, cache0),
                misses_of(ids@, cache0, misses@),
                forall|l: int| 0 <= l < misses@.len() ==> result_view(&#[trigger] outcomes@[l]) == miss_outcome(misses@, replies_v, l),
                forall|l: int| 0 <= l < misses@.len() ==> match #[trigger] outcomes@[l] {
                    Ok(g) => self.cached().contains_key(misses@[l]) && self.cached()[misses@[l]] == g@,
                    Err(_) => !self.cached().contains_key(misses@[l]),
                },
                forall|k: u64| #[trigger] cache0.contains_key(k) ==> self.cached().contains_key(k)
                    && self.cached()[k] == cache0[k],
                forall|l: int| 0 <= l < i ==> result_view(&#[trigger] r@[l]) == batch_regions(cache0, ids@, replies_v)[l],
                misses@.len() == 0 ==> self.backing() == old(self).backing() && self.cached() == cache0,
                forall|l: int| 0 <= l < i ==> match #[trigger] r@[l] {
                    Ok(g) => self.cached().contains_key(ids@[l]) && self.cached()[ids@[l]] == g@,
                    Err(e) => e is NotFound || e is InternalServerError,
                },
            decreases ids@.len() - i,
        {
            let id = ids[i];
            let ghost want = batch_regions(cache0, ids@, replies_v)[i as int];
            assert(want == if cache0.contains_key(id) {
                Ok::<RegionView, ErrorView>(cache0[id])
            } else {
                miss_outcome(misses@, replies_v, misses@.index_of(id))
            });
            let outcome = match region_map_get(&self.regions, id) {
                Some(g) => {
                    proof {
                        if !cache0.contains_key(id) {
                            assert(!cache0.contains_key(ids@[i as int]));
                            let j = choose|j: int| 0 <= j < misses@.len() && misses@[j] == id;
                            let x = misses@.index_of(id);
                            assert(0 <= x < misses@.len() && misses@[x] == id);
                            if x != j {
                                if x < j { assert(misses@[x] != misses@[j]); } else { assert(misses@[j] != misses@[x]); }
                            }
                            assert(outcomes@[j] is Ok);
                            assert(result_view(&outcomes@[j]) == miss_outcome(misses@, replies_v, j));
                        }
                    }
                    Ok(g)
                },
                None => {
                    proof {
                        assert(!cache0.contains_key(ids@[i as int]));
                    }
                    match position_of(&misses, id) {
                        Some(j) => {
                            proof {
                                let x = misses@.index_of(id);
                                assert(0 <= x < misses@.len() && misses@[x] == id);
                                if x != j as int {
                                    if x < j { assert(misses@[x] != misses@[j as int]); } else { assert(misses@[j as int] != misses@[x]); }
                                }
                                assert(result_view(&outcomes@[j as int]) == miss_outcome(misses@, replies_v, j as int));
                            }
                            match &outcomes[j] {
                                Err(e) => Err(e.duplicate()),
                                Ok(g) => Ok(g.duplicate()),
                            }
                        },
                        None => {
                            proof {
                                let j = choose|j: int| 0 <= j < misses@.len() && misses@[j] == id;
                                assert(misses@[j] == ids@[i as int]);
                            }
                            Err(ErrorResponse::InternalServerError(String::from_str("Elasticsearch error: no reply")))
                        },
                    }
                },
            };
            assert(result_view(&outcome) == want);
            r.push(outcome);
            i += 1;
        }
        assert(region_results(r@) =~= batch_regions(cache0, ids@, replies_v));
        proof {
            if misses@.len() > 0 {
                assert(ids@.contains(misses@[0]) && !cache0.contains_key(misses@[0]));
            }
        }
        r
    }

    fn search_city(&mut self, request: &SearchRequest) -> (r: Result<Vec<City>, ErrorResponse>)
        ensures
            exists|reply: Result<Seq<DocView>, (Option<u16>, Seq<char>)>| cities_result(&r) == search_outcome(reply),
            final(self).cached() == old(self).cached(),
            r matches Err(e) ==> e is InternalServerError,
    {
        let reply = self.store.search(request);
        let r = cities_from_reply(&reply);
        assert(cities_result(&r) == search_outcome(replies_view(&reply)));
        r
    }

    /// Lists the featured cities, by country and then by descending population.
    pub fn get_featured_cities(&mut self) -> (r: Result<Vec<City>, ErrorResponse>)
        ensures
            exists|reply: Result<Seq<DocView>, (Option<u16>, Seq<char>)>|
                cities_result(&r) == capped(search_outcome(reply), FEATURED_SIZE as nat),
            r matches Ok(v) ==> v@.len() <= FEATURED_SIZE,
            final(self).cached() == old(self).cached(),
            r matches Err(e) ==> e is InternalServerError,
    {
        let r = self.search_city(&featured_request());
        cap(r, FEATURED_SIZE)
    }

    /// Searches cities whose name in `language`, or in any language, prefix-matches `query`,
    /// optionally within one country. An empty match is an empty list.
    pub fn search(&mut self, query: &str, language: Language, country_iso: Option<&str>) -> (r: Result<Vec<City>, ErrorResponse>)
        ensures
            exists|reply: Result<Seq<DocView>, (Option<u16>, Seq<char>)>|
                cities_result(&r) == capped(search_outcome(reply), SEARCH_SIZE as nat),
            r matches Ok(v) ==> v@.len() <= SEARCH_SIZE,
            final(self).cached() == old(self).cached(),
            r matches Err(e) ==> e is InternalServerError,
    {
        let r = self.search_city(&search_request(query, language, country_iso));
        cap(r, SEARCH_SIZE)
    }

    /// Gets the city closest to `coords`, optionally only among cities whose featured flag is
    /// `is_featured`. Finding no city, or several, is an internal error.
    pub fn get_closest_city(&mut self, coords: Coordinates, is_featured: Option<bool>) -> (r: Result<City, ErrorResponse>)
        ensures
            exists|reply: Result<Seq<DocView>, (Option<u16>, Seq<char>)>| result_view(&r) == closest_search_outcome(reply),
            final(self).cached() == old(self).cached(),
            r matches Err(e) ==> e is InternalServerError,
    {
        let cities = self.search_city(&closest_request(coords, is_featured));
        let ghost reply = choose|reply: Result<Seq<DocView>, (Option<u16>, Seq<char>)>| cities_result(&cities) == search_outcome(reply);
        let cities = match cities {
            Ok(cs) => cs,
            Err(e) => {
                assert(result_view(&Err::<City, ErrorResponse>(e)) == closest_search_outcome(reply));
                return Err(e);
            },
        };
        let r = closest_of(cities);
        assert(result_view(&r) == closest_search_outcome(reply));
        r
    }
}

/// The one city of a geo-nearest search.
pub fn closest_of(cities: Vec<City>) -> (r: Result<City, ErrorResponse>)
    ensures
        result_view(&r) == closest_outcome(cities_view(cities@)),
{
    let ghost cv = cities_view(cities@);
    match single_city(cities) {
        Ok(c) => Ok(c),
        Err(m) => Err(ErrorResponse::InternalServerError(m)),
    }
}

} // verus!
