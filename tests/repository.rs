use locations::compose::CityResponse;
use locations::endpoints::{closest, featured, get, search, ClosestQuery};
use locations::entity::{Document, Field};
use locations::model::{ErrorResponse, Language};
use locations::query::{GetRequest, SearchRequest};
use locations::repository::{LocationsRepository, Store, StoreError};

/// A backing store held in memory, counting the exchanges made with it.
struct FakeStore {
    cities: Vec<(u64, Document)>,
    regions: Vec<(u64, Document)>,
    hits: Vec<Document>,
    failing_status: Option<u16>,
    ignores_size: bool,
    gets: usize,
    batches: Vec<Vec<u64>>,
    searches: Vec<(String, u32)>,
}

impl FakeStore {
    fn new() -> FakeStore {
        FakeStore {
            cities: Vec::new(),
            regions: Vec::new(),
            hits: Vec::new(),
            failing_status: None,
            ignores_size: false,
            gets: 0,
            batches: Vec::new(),
            searches: Vec::new(),
        }
    }

    fn lookup(&self, request: &GetRequest) -> Result<Document, StoreError> {
        if let Some(status) = self.failing_status {
            return Err(StoreError { status: Some(status), description: "status code 500".to_string() });
        }
        let table = if request.index == "city" { &self.cities } else { &self.regions };
        match table.iter().find(|(id, _)| *id == request.id) {
            Some((_, doc)) => Ok(doc.clone()),
            None => Err(StoreError { status: Some(404), description: "status code 404".to_string() }),
        }
    }
}

impl Store for FakeStore {
    fn get(&mut self, request: &GetRequest) -> Result<Document, StoreError> {
        self.gets += 1;
        self.lookup(request)
    }

    fn search(&mut self, request: &SearchRequest) -> Result<Vec<Document>, StoreError> {
        self.searches.push((request.body.clone(), request.size));
        if let Some(status) = self.failing_status {
            return Err(StoreError { status: Some(status), description: "status code 500".to_string() });
        }
        let size = if self.ignores_size { usize::MAX } else { request.size as usize };
        Ok(self.hits.iter().take(size).cloned().collect())
    }

    fn get_all(&mut self, requests: &Vec<GetRequest>) -> Vec<Result<Document, StoreError>> {
        self.batches.push(requests.iter().map(|r| r.id).collect());
        // Answer in reverse completion order; the replies still follow the requests.
        let mut replies: Vec<(usize, Result<Document, StoreError>)> =
            requests.iter().enumerate().rev().map(|(i, r)| (i, self.lookup(r))).collect();
        replies.sort_by_key(|(i, _)| *i);
        replies.into_iter().map(|(_, r)| r).collect()
    }
}

fn s(v: &str) -> String {
    v.to_string()
}

fn city_doc(id: u64, region_id: u64, iso: &str, featured: bool, names: &[(&str, &str)]) -> Document {
    let mut doc = vec![
        (s("id"), Field::UInt(id)),
        (s("regionId"), Field::UInt(region_id)),
        (s("isFeatured"), Field::Bool(featured)),
        (s("countryIso"), Field::Str(s(iso))),
        (s("timezone"), Field::Str(s("Europe/Prague"))),
    ];
    for (k, v) in names {
        doc.push((s(k), Field::Str(s(v))));
    }
    doc
}

fn region_doc(id: u64, iso: &str, names: &[(&str, &str)]) -> Document {
    let mut doc = vec![(s("id"), Field::UInt(id)), (s("countryIso"), Field::Str(s(iso)))];
    for (k, v) in names {
        doc.push((s(k), Field::Str(s(v))));
    }
    doc
}

fn prague_store() -> FakeStore {
    let mut store = FakeStore::new();
    store.cities.push((
        101748113,
        city_doc(101748113, 7, "CZ", true, &[("name.cs", "Praha"), ("name.en", "Prague"), ("name.sk", "Praha")]),
    ));
    store.regions.push((7, region_doc(7, "CZ", &[("name.cs", "Hlavní město Praha"), ("name.en", "Prague Region")])));
    store
}

fn names_of(v: &[CityResponse]) -> Vec<String> {
    v.iter().map(|c| c.name.clone()).collect()
}

#[test]
fn prague_in_czech_has_localized_city_and_region_names() {
    let mut repo = LocationsRepository::new(prague_store());
    let resp = get(&mut repo, 101748113, Language::CS).unwrap();
    assert_eq!(resp.id, 101748113);
    assert!(resp.is_featured);
    assert_eq!(resp.country_iso, "CZ");
    assert_eq!(resp.name, "Praha");
    assert_eq!(resp.region_name, "Hlavní město Praha");
}

#[test]
fn missing_city_is_not_found() {
    let mut repo = LocationsRepository::new(prague_store());
    match repo.get_city(42) {
        Err(ErrorResponse::NotFound(m)) => assert_eq!(m, "City#42 not found."),
        other => panic!("unexpected {:?}", other),
    }
    match repo.get_region(43) {
        Err(ErrorResponse::NotFound(m)) => assert_eq!(m, "Region#43 not found."),
        other => panic!("unexpected {:?}", other),
    }
}

#[test]
fn store_failure_is_internal_error() {
    let mut store = prague_store();
    store.failing_status = Some(500);
    let mut repo = LocationsRepository::new(store);
    match repo.get_city(101748113) {
        Err(ErrorResponse::InternalServerError(m)) => assert_eq!(m, "Elasticsearch error: status code 500"),
        other => panic!("unexpected {:?}", other),
    }
    match repo.search("Pra", Language::EN, None) {
        Err(ErrorResponse::InternalServerError(m)) => assert_eq!(m, "Elasticsearch error: status code 500"),
        other => panic!("unexpected {:?}", other),
    }
}

#[test]
fn second_region_lookup_hits_the_cache() {
    let mut repo = LocationsRepository::new(prague_store());
    let first = repo.get_region(7).unwrap();
    assert_eq!(repo.store.gets, 1);
    let second = repo.get_region(7).unwrap();
    assert_eq!(repo.store.gets, 1);
    assert_eq!(first.id, second.id);
    assert_eq!(first.country_iso, second.country_iso);
    assert_eq!(first.names, second.names);
}

#[test]
fn failed_region_lookup_is_not_cached() {
    let mut repo = LocationsRepository::new(prague_store());
    assert!(repo.get_region(8).is_err());
    assert!(repo.get_region(8).is_err());
    assert_eq!(repo.store.gets, 2);
}

#[test]
fn missing_slovak_name_is_bad_request() {
    let mut store = FakeStore::new();
    store.cities.push((5, city_doc(5, 7, "CZ", false, &[("name.cs", "Brno")])));
    store.regions.push((7, region_doc(7, "CZ", &[("name.cs", "Jihomoravský kraj"), ("name.sk", "Juhomoravský kraj")])));
    let mut repo = LocationsRepository::new(store);
    match get(&mut repo, 5, Language::SK) {
        Err(ErrorResponse::BadRequest(m)) => assert_eq!(m, "name.sk"),
        other => panic!("unexpected {:?}", other),
    }
}

#[test]
fn missing_region_name_is_bad_request() {
    let mut store = FakeStore::new();
    store.cities.push((5, city_doc(5, 7, "CZ", false, &[("name.sk", "Brno")])));
    store.regions.push((7, region_doc(7, "CZ", &[("name.cs", "Jihomoravský kraj")])));
    let mut repo = LocationsRepository::new(store);
    match get(&mut repo, 5, Language::SK) {
        Err(ErrorResponse::BadRequest(m)) => assert_eq!(m, "name.sk"),
        other => panic!("unexpected {:?}", other),
    }
}

fn batch_store() -> FakeStore {
    let mut store = FakeStore::new();
    let cities = [(1, 10, "CZ", "Praha"), (2, 20, "DE", "Berlin"), (3, 10, "CZ", "Kladno"), (4, 30, "PL", "Warszawa"), (5, 20, "DE", "Potsdam")];
    for (id, region, iso, name) in cities {
        store.hits.push(city_doc(id, region, iso, true, &[("name.en", name), ("name.de", name)]));
    }
    for (id, iso) in [(10, "CZ"), (20, "DE"), (30, "PL")] {
        let name = format!("Region {}", id);
        store.regions.push((id, region_doc(id, iso, &[("name.en", name.as_str()), ("name.de", name.as_str())])));
    }
    store
}

#[test]
fn batch_keeps_input_order() {
    let mut repo = LocationsRepository::new(batch_store());
    let v = search(&mut repo, "a", None, Language::EN).unwrap();
    assert_eq!(names_of(&v), vec!["Praha", "Berlin", "Kladno", "Warszawa", "Potsdam"]);
    let regions: Vec<String> = v.iter().map(|c| c.region_name.clone()).collect();
    assert_eq!(regions, vec!["Region 10", "Region 20", "Region 10", "Region 30", "Region 20"]);
    // Each missing Region is fetched once, in one batch.
    assert_eq!(repo.store.batches, vec![vec![10, 20, 30]]);
}

#[test]
fn batch_with_cached_regions_asks_the_store_nothing() {
    let mut repo = LocationsRepository::new(batch_store());
    search(&mut repo, "a", None, Language::EN).unwrap();
    search(&mut repo, "a", None, Language::EN).unwrap();
    assert_eq!(repo.store.batches.len(), 1);
    assert_eq!(repo.store.gets, 0);
}

#[test]
fn batch_fails_with_first_failing_city() {
    let mut store = batch_store();
    store.hits.insert(1, city_doc(9, 99, "CZ", false, &[("name.en", "Nowhere")]));
    store.hits.insert(3, city_doc(8, 10, "CZ", false, &[("name.cs", "Jen česky")]));
    let mut repo = LocationsRepository::new(store);
    match search(&mut repo, "a", None, Language::EN) {
        Err(ErrorResponse::NotFound(m)) => assert_eq!(m, "Region#99 not found."),
        other => panic!("unexpected {:?}", other),
    }
}

#[test]
fn featured_lists_preferred_country_first() {
    let mut repo = LocationsRepository::new(batch_store());
    let v = featured(&mut repo, Language::DE).unwrap();
    assert_eq!(names_of(&v), vec!["Berlin", "Potsdam", "Praha", "Kladno", "Warszawa"]);
    let (body, size) = &repo.store.searches[0];
    assert_eq!(size, &1000);
    assert_eq!(
        body,
        "{\"query\":{\"term\":{\"isFeatured\":true}},\"sort\":[\"countryIso\",{\"population\":\"desc\"}]}"
    );
}

#[test]
fn search_pra_returns_at_most_ten() {
    let mut store = FakeStore::new();
    store.regions.push((1, region_doc(1, "CZ", &[("name.en", "Bohemia")])));
    for id in 0..15 {
        let name = format!("Pra {}", id);
        store.hits.push(city_doc(100 + id, 1, if id < 3 { "CZ" } else { "PL" }, false, &[("name.en", name.as_str())]));
    }
    let mut repo = LocationsRepository::new(store);
    let v = search(&mut repo, "Pra", None, Language::EN).unwrap();
    assert!(v.len() <= 10);
    assert_eq!(v.len(), 10);
    assert_eq!(v[0].name, "Pra 0");
    assert_eq!(v[0].country_iso, "CZ");
    let (body, size) = &repo.store.searches[0];
    assert_eq!(*size, 10);
    assert!(body.contains("\"query\":\"Pra\""));
    assert!(body.contains("\"filter\":[]"));
    assert!(body.contains("\"modifier\":\"ln2p\",\"missing\":500"));
}

#[test]
fn empty_search_is_empty_list() {
    let mut repo = LocationsRepository::new(FakeStore::new());
    let v = search(&mut repo, "zzz", Some("CZ"), Language::CS).unwrap();
    assert!(v.is_empty());
    assert!(repo.store.searches[0].0.contains("\"filter\":[{\"term\":{\"countryIso\":\"CZ\"}}]"));
}

#[test]
fn closest_requires_exactly_one_city() {
    let mut repo = LocationsRepository::new(FakeStore::new());
    let coords = locations::model::Coordinates { lat: 50_087_000, lon: 14_421_000 };
    match repo.get_closest_city(coords, None) {
        Err(ErrorResponse::InternalServerError(m)) => assert_eq!(m, "Called single() on empty iterator"),
        other => panic!("unexpected {:?}", other),
    }
    assert!(repo.store.searches[0].0.contains("\"must\":{\"match_all\":{}}"));
    assert_eq!(repo.store.searches[0].1, 1);
    repo.store.hits = batch_store().hits;
    // The fake store honours the requested size, so a second hit is never returned here.
    let c = repo.get_closest_city(coords, Some(true)).unwrap();
    assert_eq!(c.id, 1);
    assert!(repo.store.searches[1].0.contains("\"must\":{\"term\":{\"isFeatured\":true}}"));
}

#[test]
fn closest_falls_back_to_default_city() {
    let mut repo = LocationsRepository::new(prague_store());
    let q = ClosestQuery { lat: None, lon: None, language: Language::EN };
    let resp = closest(&mut repo, &q, None).unwrap();
    assert_eq!(resp.name, "Prague");
    assert_eq!(resp.region_name, "Prague Region");
    assert!(repo.store.searches.is_empty());
}

#[test]
fn closest_with_one_coordinate_is_bad_request() {
    let mut repo = LocationsRepository::new(prague_store());
    let q = ClosestQuery { lat: Some(1), lon: None, language: Language::EN };
    match closest(&mut repo, &q, None) {
        Err(ErrorResponse::BadRequest(m)) => assert_eq!(m, "either both or none of `lat`, `lon` expected"),
        other => panic!("unexpected {:?}", other),
    }
    assert_eq!(repo.store.gets, 0);
}

#[test]
fn search_is_capped_even_when_store_returns_more() {
    let mut store = FakeStore::new();
    store.ignores_size = true;
    store.regions.push((1, region_doc(1, "CZ", &[("name.en", "Bohemia")])));
    for id in 0..15 {
        let name = format!("Pra {}", id);
        store.hits.push(city_doc(100 + id, 1, "CZ", false, &[("name.en", name.as_str())]));
    }
    let mut repo = LocationsRepository::new(store);
    let v = repo.search("Pra", Language::EN, None).unwrap();
    assert_eq!(v.len(), 10);
    assert_eq!(v[9].id, 109);
    let featured = repo.get_featured_cities().unwrap();
    assert_eq!(featured.len(), 15);
}

#[test]
fn closest_with_several_hits_is_internal_error() {
    let mut store = batch_store();
    store.ignores_size = true;
    let mut repo = LocationsRepository::new(store);
    let coords = locations::model::Coordinates { lat: 1, lon: 2 };
    match repo.get_closest_city(coords, None) {
        Err(ErrorResponse::InternalServerError(m)) => assert_eq!(m, "Called single() on multiple-element iterator"),
        other => panic!("unexpected {:?}", other),
    }
}

#[test]
fn batch_region_names_follow_each_city() {
    let mut repo = LocationsRepository::new(batch_store());
    let v = featured(&mut repo, Language::EN).unwrap();
    let pairs: Vec<(String, String)> = v.iter().map(|c| (c.name.clone(), c.region_name.clone())).collect();
    assert_eq!(pairs[0], (s("Praha"), s("Region 10")));
    assert_eq!(pairs[1], (s("Kladno"), s("Region 10")));
    assert_eq!(pairs[2], (s("Berlin"), s("Region 20")));
    assert_eq!(pairs[3], (s("Warszawa"), s("Region 30")));
}
