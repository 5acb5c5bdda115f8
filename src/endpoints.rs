//! What each city endpoint decides and computes, given validated parameters.

use vstd::prelude::*;
use crate::compose::{CityResponse, CityResponseView, response_views, responds_all, responds_one};
use crate::entity::{City, CityView, DocView};
use crate::query::{FEATURED_SIZE, SEARCH_SIZE};
use crate::model::{Coordinates, ErrorResponse, ErrorView, Language, name_key_of};
use crate::repository::{
    LocationsRepository, ReplyView, Store, capped, cities_result, cities_view, city_outcome, closest_search_outcome, result_view,
    search_outcome,
};

verus! {

/// Parameters of a closest-city request: both or neither of latitude and longitude, in
/// millionths of a degree.
#[derive(Debug)]
pub struct ClosestQuery {
    pub lat: Option<i64>,
    pub lon: Option<i64>,
    pub language: Language,
}

/// Detail of the error for a request with only one of latitude and longitude.
pub open spec fn half_coordinates_message() -> Seq<char> {
    "either both or none of `lat`, `lon` expected"@
}

impl ClosestQuery {
    /// The coordinates of the query: `None` where neither is given, an error where only one is.
    pub fn coordinates(&self) -> (r: Result<Option<Coordinates>, ErrorResponse>)
        ensures
            match (self.lat, self.lon) {
                (Some(lat), Some(lon)) => r == Ok::<Option<Coordinates>, ErrorResponse>(Some(Coordinates { lat, lon })),
                (None, None) => r == Ok::<Option<Coordinates>, ErrorResponse>(None),
                _ => (r matches Err(e) && e@ == ErrorView::BadRequest(half_coordinates_message())),
            },
    {
        match (self.lat, self.lon) {
            (Some(lat), Some(lon)) => Ok(Some(Coordinates { lat, lon })),
            (None, None) => Ok(None),
            _ => Err(ErrorResponse::BadRequest(String::from_str("either both or none of `lat`, `lon` expected"))),
        }
    }
}

/// Coordinates from IP geolocation, where both are known. The point (0, 0) is what the
/// geolocation reports when it cannot locate, and counts as unknown.
pub fn fastly_geo_coords(lat: Option<i64>, lon: Option<i64>) -> (r: Option<Coordinates>)
    ensures
        match (lat, lon) {
            (Some(a), Some(o)) => if a == 0 && o == 0 { r is None } else { r == Some(Coordinates { lat: a, lon: o }) },
            _ => r is None,
        },
{
    match (lat, lon) {
        (Some(a), Some(o)) => if a == 0 && o == 0 { None } else { Some(Coordinates { lat: a, lon: o }) },
        _ => None,
    }
}

/// The city shown for `language` where no location is known: the capital of its country,
/// Prague for English.
pub open spec fn default_city(language: Language) -> u64 {
    match language {
        Language::CS => 101_748_113,
        Language::DE => 101_909_779,
        Language::EN => 101_748_113,
        Language::PL => 101_752_777,
        Language::SK => 1_108_800_123,
    }
}

/// The id of the default city for `language`.
pub fn default_city_id(language: Language) -> (r: u64)
    ensures
        r == default_city(language),
{
    match language {
        Language::CS => 101_748_113,
        Language::DE => 101_909_779,
        Language::EN => 101_748_113,
        Language::PL => 101_752_777,
        Language::SK => 1_108_800_123,
    }
}

/// The country whose featured cities are listed first for `language`.
pub open spec fn preferred_country(language: Language) -> Seq<char> {
    match language {
        Language::CS => "CZ"@,
        Language::DE => "DE"@,
        Language::EN => "CZ"@,
        Language::PL => "PL"@,
        Language::SK => "SK"@,
    }
}

/// The ISO code of the preferred country for `language`.
pub fn preferred_country_iso(language: Language) -> (r: String)
    ensures
        r@ == preferred_country(language),
{
    match language {
        Language::CS => String::from_str("CZ"),
        Language::DE => String::from_str("DE"),
        Language::EN => String::from_str("CZ"),
        Language::PL => String::from_str("PL"),
        Language::SK => String::from_str("SK"),
    }
}

/// The cities of country `iso` first, then the others, each part in its original order.
pub open spec fn country_first(cities: Seq<CityView>, iso: Seq<char>) -> Seq<CityView> {
    cities.filter(|c: CityView| c.country_iso == iso) + cities.filter(|c: CityView| c.country_iso != iso)
}

fn push_matching(out: &mut Vec<City>, cities: &Vec<City>, iso: &String, keep: bool)
    ensures
        cities_view(final(out)@) == cities_view(old(out)@) + cities_view(cities@).filter(|c: CityView| (c.country_iso == iso@) == keep),
{
    let ghost start = cities_view(out@);
    let ghost cv = cities_view(cities@);
    let ghost pred = |c: CityView| (c.country_iso == iso@) == keep;
    let mut i: usize = 0;
    assert(cv.take(0) =~= Seq::<CityView>::empty());
    proof { reveal(Seq::filter); }
    assert(cv.take(0).filter(pred) =~= Seq::<CityView>::empty());
    assert(start + Seq::<CityView>::empty() =~= start);
    while i < cities.len()
        invariant
            i <= cities@.len(),
            cv == cities_view(cities@),
            pred == (|c: CityView| (c.country_iso == iso@) == keep),
            cities_view(out@) == start + cv.take(i as int).filter(pred),
        decreases cities@.len() - i,
    {
        proof { reveal(Seq::filter); }
        assert(cv.take(i + 1).drop_last() =~= cv.take(i as int));
        assert(cv.take(i + 1).last() == cities@[i as int]@);
        if (cities[i].country_iso == *iso) == keep {
            let ghost before = out@;
            out.push(cities[i].duplicate());
            assert(cities_view(out@) =~= cities_view(before).push(cities@[i as int]@));
            assert(cities_view(out@) =~= start + cv.take(i + 1).filter(pred));
        } else {
            assert(cities_view(out@) =~= start + cv.take(i + 1).filter(pred));
        }
        i += 1;
    }
    assert(cv.take(cities@.len() as int) =~= cv);
}

/// Orders `cities` with those of country `iso` first; the order within each part is kept.
pub fn prefer_country(cities: &Vec<City>, iso: &String) -> (r: Vec<City>)
    ensures
        cities_view(r@) == country_first(cities_view(cities@), iso@),
{
    let mut r: Vec<City> = Vec::new();
    assert(cities_view(r@) =~= Seq::<CityView>::empty());
    push_matching(&mut r, cities, iso, true);
    push_matching(&mut r, cities, iso, false);
    let ghost cv = cities_view(cities@);
    assert(cv.filter(|c: CityView| (c.country_iso == iso@) == true) =~= cv.filter(|c: CityView| c.country_iso == iso@)) by {
        assert((|c: CityView| (c.country_iso == iso@) == true) =~= (|c: CityView| c.country_iso == iso@));
    }
    assert(cv.filter(|c: CityView| (c.country_iso == iso@) == false) =~= cv.filter(|c: CityView| c.country_iso != iso@)) by {
        assert((|c: CityView| (c.country_iso == iso@) == false) =~= (|c: CityView| c.country_iso != iso@));
    }
    assert(Seq::<CityView>::empty() + cv.filter(|c: CityView| (c.country_iso == iso@) == true)
        =~= cv.filter(|c: CityView| c.country_iso == iso@));
    r
}

/// The error for a path or entity that does not exist.
pub fn not_found(uri: &str) -> (r: ErrorResponse)
    ensures
        r@ == ErrorView::NotFound("Resource "@ + uri@ + " does not exist."@),
{
    let mut m = String::from_str("Resource ");
    m.append(uri);
    m.append(" does not exist.");
    ErrorResponse::NotFound(m)
}

/// The error for a failure that nothing more specific describes.
pub fn internal_server_error() -> (r: ErrorResponse)
    ensures
        r@ == ErrorView::InternalServerError("Something went wrong."@),
{
    ErrorResponse::InternalServerError(String::from_str("Something went wrong."))
}

/// How a closest-city request is answered.
#[derive(Debug, PartialEq, Eq, Structural)]
pub enum ClosestPlan {
    /// The city nearest to a point, optionally only among cities with this featured flag.
    Near(Coordinates, Option<bool>),
    /// A fixed city, by id.
    Fixed(u64),
}

/// The plan for a closest-city request: the caller's coordinates when given, else the
/// nearest featured city to the geolocated point, else the default city of the language.
pub open spec fn closest_plan(query: &ClosestQuery, located: Option<Coordinates>) -> Result<ClosestPlan, ErrorView> {
    match (query.lat, query.lon) {
        (Some(lat), Some(lon)) => if (Coordinates { lat, lon }).in_range() {
            Ok(ClosestPlan::Near(Coordinates { lat, lon }, None))
        } else {
            Err((Coordinates { lat, lon }).range_error())
        },
        (None, None) => match located {
            Some(c) => Ok(ClosestPlan::Near(c, Some(true))),
            None => Ok(ClosestPlan::Fixed(default_city(query.language))),
        },
        _ => Err(ErrorView::BadRequest(half_coordinates_message())),
    }
}

/// Decides how to answer a closest-city request, given the geolocated point if any.
pub fn plan_closest(query: &ClosestQuery, located: Option<Coordinates>) -> (r: Result<ClosestPlan, ErrorResponse>)
    ensures
        match r {
            Ok(p) => closest_plan(query, located) == Ok::<ClosestPlan, ErrorView>(p),
            Err(e) => closest_plan(query, located) == Err::<ClosestPlan, ErrorView>(e@),
        },
{
    match query.coordinates()? {
        Some(coords) => {
            coords.validate()?;
            Ok(ClosestPlan::Near(coords, None))
        },
        None => match located {
            Some(c) => Ok(ClosestPlan::Near(c, Some(true))),
            None => Ok(ClosestPlan::Fixed(default_city_id(query.language))),
        },
    }
}

/// The errors an endpoint answers with: those of the store, or a name missing under `key`.
pub open spec fn endpoint_error(e: ErrorView, key: Seq<char>) -> bool {
    e is NotFound || e is InternalServerError || e == ErrorView::BadRequest(key)
}

/// Cached Regions stay cached, unchanged.
pub open spec fn cache_kept<S: Store>(before: &LocationsRepository<S>, after: &LocationsRepository<S>) -> bool {
    forall|k: u64| #[trigger] before.cached().contains_key(k) ==> after.cached().contains_key(k)
        && after.cached()[k] == before.cached()[k]
}

/// Gets City `id` localized to `language`.
pub fn get<S: Store>(repo: &mut LocationsRepository<S>, id: u64, language: Language) -> (r: Result<CityResponse, ErrorResponse>)
    ensures
        r matches Ok(resp) ==> exists|reply: ReplyView| #[trigger] city_outcome(id, reply) matches Ok(c)
            && final(repo).cached().contains_key(c.region_id)
            && responds_one(c, final(repo).cached()[c.region_id], resp@, name_key_of(language)),
        r matches Err(e) ==> endpoint_error(e@, name_key_of(language)),
        cache_kept(old(repo), final(repo)),
{
    let city = repo.get_city(id)?;
    let ghost reply = choose|reply: ReplyView| result_view(&Ok::<City, ErrorResponse>(city)) == city_outcome(id, reply);
    let r = repo.into_resp(&city, language);
    assert(r matches Ok(resp) ==> city_outcome(id, reply) matches Ok(c) && final(repo).cached().contains_key(c.region_id)
        && responds_one(c, final(repo).cached()[c.region_id], resp@, name_key_of(language)));
    r
}

/// Lists the featured cities localized to `language`, those of the language's country first.
pub fn featured<S: Store>(repo: &mut LocationsRepository<S>, language: Language) -> (r: Result<Vec<CityResponse>, ErrorResponse>)
    ensures
        r matches Ok(v) ==> exists|reply: Result<Seq<DocView>, (Option<u16>, Seq<char>)>| #[trigger] capped(search_outcome(reply), FEATURED_SIZE as nat) matches Ok(cs)
            && responds_all(country_first(cs, preferred_country(language)), final(repo).cached(), response_views(v@), name_key_of(language)),
        r matches Err(e) ==> endpoint_error(e@, name_key_of(language)),
        cache_kept(old(repo), final(repo)),
{
    let cities = repo.get_featured_cities()?;
    let ghost reply = choose|reply: Result<Seq<DocView>, (Option<u16>, Seq<char>)>|
        cities_result(&Ok::<Vec<City>, ErrorResponse>(cities)) == capped(search_outcome(reply), FEATURED_SIZE as nat);
    let ordered = prefer_country(&cities, &preferred_country_iso(language));
    let r = repo.cities_into_resp(&ordered, language);
    assert(r matches Ok(v) ==> capped(search_outcome(reply), FEATURED_SIZE as nat) matches Ok(cs)
        && responds_all(country_first(cs, preferred_country(language)), final(repo).cached(), response_views(v@), name_key_of(language)));
    r
}

/// Searches cities matching `query`, optionally within country `country_iso`, localized to
/// `language`, in rank order.
pub fn search<S: Store>(
    repo: &mut LocationsRepository<S>,
    query: &str,
    country_iso: Option<&str>,
    language: Language,
) -> (r: Result<Vec<CityResponse>, ErrorResponse>)
    ensures
        r matches Ok(v) ==> exists|reply: Result<Seq<DocView>, (Option<u16>, Seq<char>)>| #[trigger] capped(search_outcome(reply), SEARCH_SIZE as nat) matches Ok(cs)
            && v@.len() <= SEARCH_SIZE
            && responds_all(cs, final(repo).cached(), response_views(v@), name_key_of(language)),
        r matches Err(e) ==> endpoint_error(e@, name_key_of(language)),
        cache_kept(old(repo), final(repo)),
{
    let cities = repo.search(query, language, country_iso)?;
    let ghost reply = choose|reply: Result<Seq<DocView>, (Option<u16>, Seq<char>)>|
        cities_result(&Ok::<Vec<City>, ErrorResponse>(cities)) == capped(search_outcome(reply), SEARCH_SIZE as nat);
    let r = repo.cities_into_resp(&cities, language);
    assert(r matches Ok(v) ==> capped(search_outcome(reply), SEARCH_SIZE as nat) matches Ok(cs) && v@.len() <= SEARCH_SIZE && responds_all(cs, final(repo).cached(), response_views(v@), name_key_of(language)));
    r
}

/// Gets the city closest to the request's coordinates, or to the geolocated point `located`,
/// or the default city of the request's language, localized to that language.
pub fn closest<S: Store>(
    repo: &mut LocationsRepository<S>,
    query: &ClosestQuery,
    located: Option<Coordinates>,
) -> (r: Result<CityResponse, ErrorResponse>)
    ensures
        closest_plan(query, located) matches Err(e) ==> result_view(&r) == Err::<CityResponseView, ErrorView>(e)
            && *final(repo) == *old(repo),
        r matches Ok(resp) ==> match closest_plan(query, located) {
            Ok(ClosestPlan::Near(_, _)) => exists|reply: Result<Seq<DocView>, (Option<u16>, Seq<char>)>|
                #[trigger] closest_search_outcome(reply) matches Ok(c) && final(repo).cached().contains_key(c.region_id)
                && responds_one(c, final(repo).cached()[c.region_id], resp@, name_key_of(query.language)),
            Ok(ClosestPlan::Fixed(id)) => exists|reply: ReplyView|
                #[trigger] city_outcome(id, reply) matches Ok(c) && final(repo).cached().contains_key(c.region_id)
                && responds_one(c, final(repo).cached()[c.region_id], resp@, name_key_of(query.language)),
            Err(_) => false,
        },
        r matches Err(e) ==> closest_plan(query, located) is Err || endpoint_error(e@, name_key_of(query.language)),
        cache_kept(old(repo), final(repo)),
{
    let plan = plan_closest(query, located)?;
    let city = match plan {
        ClosestPlan::Near(coords, is_featured) => repo.get_closest_city(coords, is_featured)?,
        ClosestPlan::Fixed(id) => repo.get_city(id)?,
    };
    let r = repo.into_resp(&city, query.language);
    proof {
        let key = name_key_of(query.language);
        match plan {
            ClosestPlan::Near(_, _) => {
                let reply = choose|reply: Result<Seq<DocView>, (Option<u16>, Seq<char>)>|
                    result_view(&Ok::<City, ErrorResponse>(city)) == closest_search_outcome(reply);
                assert(r matches Ok(resp) ==> closest_search_outcome(reply) matches Ok(c) && final(repo).cached().contains_key(c.region_id)
                    && responds_one(c, final(repo).cached()[c.region_id], resp@, key));
            },
            ClosestPlan::Fixed(id) => {
                let reply = choose|reply: ReplyView| result_view(&Ok::<City, ErrorResponse>(city)) == city_outcome(id, reply);
                assert(r matches Ok(resp) ==> city_outcome(id, reply) matches Ok(c) && final(repo).cached().contains_key(c.region_id)
                    && responds_one(c, final(repo).cached()[c.region_id], resp@, key));
            },
        }
    }
    r
}

/// Application state: the repository that all endpoints share.
pub struct App<S: Store> {
    pub locations: LocationsRepository<S>,
}

impl<S: Store> App<S> {
    /// The application over `store`, with an empty Region cache.
    pub fn new(store: S) -> (r: Self)
        ensures
            r.locations.backing() == store,
            r.locations.cached() == crate::cache::no_regions(),
    {
        App { locations: LocationsRepository::new(store) }
    }
}

} // verus!
