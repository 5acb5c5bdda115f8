use locations::endpoints::{
    default_city_id, fastly_geo_coords, internal_server_error, not_found, plan_closest, preferred_country_iso,
    prefer_country, ClosestPlan, ClosestQuery,
};
use locations::entity::{City, Document, EntityKind, Field, Region};
use locations::model::{lookup_name, Coordinates, ErrorResponse, Language};
use locations::query::{closest_request, featured_request, get_request, search_body, search_field_list, search_request};
use locations::repository::{cities_from_reply, city_from_reply, closest_of, region_from_reply, StoreError};
use locations::text::{push_decimal, push_micro_decimal};

fn s(v: &str) -> String {
    v.to_string()
}

fn full_city() -> Document {
    vec![
        (s("id"), Field::UInt(101748113)),
        (s("regionId"), Field::UInt(7)),
        (s("isFeatured"), Field::Bool(true)),
        (s("countryIso"), Field::Str(s("CZ"))),
        (s("population"), Field::UInt(1_300_000)),
        (s("timezone"), Field::Str(s("Europe/Prague"))),
        (s("name.cs"), Field::Str(s("Praha"))),
        (s("name.en"), Field::Str(s("Prague"))),
    ]
}

#[test]
fn name_keys_are_lowercase_codes() {
    assert_eq!(Language::CS.name_key(), "name.cs");
    assert_eq!(Language::DE.name_key(), "name.de");
    assert_eq!(Language::EN.name_key(), "name.en");
    assert_eq!(Language::PL.name_key(), "name.pl");
    assert_eq!(Language::SK.name_key(), "name.sk");
}

#[test]
fn error_status_and_message() {
    let e = ErrorResponse::BadRequest(s("name.sk"));
    assert_eq!(e.status_code(), 400);
    assert_eq!(e.message(), "Bad Request: name.sk");
    let e = ErrorResponse::NotFound(s("City#1 not found."));
    assert_eq!(e.status_code(), 404);
    assert_eq!(e.message(), "Not Found: City#1 not found.");
    let e = internal_server_error();
    assert_eq!(e.status_code(), 500);
    assert_eq!(e.message(), "Internal Server Error: Something went wrong.");
    assert_eq!(not_found("/nope").message(), "Not Found: Resource /nope does not exist.");
}

#[test]
fn coordinates_range_edges() {
    assert!(Coordinates { lat: 90_000_000, lon: -180_000_000 }.validate().is_ok());
    assert!(Coordinates { lat: -90_000_000, lon: 180_000_000 }.validate().is_ok());
    assert!(matches!(Coordinates { lat: 90_000_001, lon: 0 }.validate(), Err(ErrorResponse::BadRequest(_))));
    assert!(matches!(Coordinates { lat: 0, lon: -180_000_001 }.validate(), Err(ErrorResponse::BadRequest(_))));
}

#[test]
fn decimal_text() {
    let mut t = s("n=");
    push_decimal(&mut t, 0);
    assert_eq!(t, "n=0");
    let mut t = String::new();
    push_decimal(&mut t, 18_446_744_073_709_551_615);
    assert_eq!(t, "18446744073709551615");
    let mut t = String::new();
    push_micro_decimal(&mut t, -12_500_000);
    assert_eq!(t, "-12.500000");
    let mut t = String::new();
    push_micro_decimal(&mut t, 5);
    assert_eq!(t, "0.000005");
    let mut t = String::new();
    push_micro_decimal(&mut t, i64::MIN);
    assert_eq!(t, "-9223372036854.775808");
}

#[test]
fn city_document_decodes() {
    let c = City::from_document(&full_city()).unwrap();
    assert_eq!(c.id, 101748113);
    assert_eq!(c.region_id, 7);
    assert!(c.is_featured);
    assert_eq!(c.country_iso, "CZ");
    assert_eq!(c.population, Some(1_300_000));
    assert_eq!(c.timezone, "Europe/Prague");
    assert_eq!(c.names, vec![(s("name.cs"), s("Praha")), (s("name.en"), s("Prague"))]);
}

#[test]
fn missing_is_featured_is_false_and_missing_population_unset() {
    let doc: Document = full_city().into_iter().filter(|(k, _)| k != "isFeatured" && k != "population").collect();
    let c = City::from_document(&doc).unwrap();
    assert!(!c.is_featured);
    assert_eq!(c.population, None);
}

#[test]
fn city_document_errors() {
    let doc: Document = full_city().into_iter().filter(|(k, _)| k != "id").collect();
    match City::from_document(&doc) {
        Err(ErrorResponse::InternalServerError(m)) => assert_eq!(m, "Elasticsearch error: City document has a missing or invalid field: id"),
        other => panic!("unexpected {:?}", other),
    }
    let mut doc = full_city();
    doc.push((s("centroid"), Field::Other));
    match City::from_document(&doc) {
        Err(ErrorResponse::InternalServerError(m)) => assert_eq!(m, "Elasticsearch error: City document has a missing or invalid field: names"),
        other => panic!("unexpected {:?}", other),
    }
    let mut doc = full_city();
    doc[4] = (s("population"), Field::UInt(5_000_000_000));
    match City::from_document(&doc) {
        Err(ErrorResponse::InternalServerError(m)) => assert_eq!(m, "Elasticsearch error: City document has a missing or invalid field: population"),
        other => panic!("unexpected {:?}", other),
    }
}

#[test]
fn region_document_decodes() {
    let doc = vec![
        (s("countryIso"), Field::Str(s("CZ"))),
        (s("name.cs"), Field::Str(s("Hlavní město Praha"))),
        (s("id"), Field::UInt(7)),
    ];
    let g = Region::from_document(&doc).unwrap();
    assert_eq!(g.id, 7);
    assert_eq!(g.country_iso, "CZ");
    assert_eq!(g.names, vec![(s("name.cs"), s("Hlavní město Praha"))]);
    let bad = vec![(s("id"), Field::Str(s("7"))), (s("countryIso"), Field::Str(s("CZ")))];
    match Region::from_document(&bad) {
        Err(ErrorResponse::InternalServerError(m)) => assert_eq!(m, "Elasticsearch error: Region document has a missing or invalid field: id"),
        other => panic!("unexpected {:?}", other),
    }
}

#[test]
fn name_lookup_takes_first_match() {
    let names = vec![(s("name.cs"), s("Praha")), (s("name.cs"), s("Other"))];
    assert_eq!(lookup_name(&names, &s("name.cs")), Some(s("Praha")));
    assert_eq!(lookup_name(&names, &s("name.sk")), None);
}

#[test]
fn get_request_excludes_heavy_fields() {
    let r = get_request(EntityKind::Region, 7);
    assert_eq!(r.index, "region");
    assert_eq!(r.id, 7);
    assert_eq!(r.source_excludes, vec![s("centroid"), s("geometry"), s("population")]);
    assert_eq!(get_request(EntityKind::City, 1).index, "city");
}

#[test]
fn featured_request_document() {
    let r = featured_request();
    assert_eq!(r.index, "city");
    assert_eq!(r.size, 1000);
    assert_eq!(r.body, "{\"query\":{\"term\":{\"isFeatured\":true}},\"sort\":[\"countryIso\",{\"population\":\"desc\"}]}");
}

#[test]
fn search_fields_and_boosts() {
    let f = search_field_list(Language::CS);
    assert_eq!(f.len(), 12);
    assert_eq!(f[0], (s("name.cs.autocomplete"), 8));
    assert_eq!(f[5], (s("name.cs.autocomplete_ascii._3gram"), 4));
    assert_eq!(f[6], (s("name.all.autocomplete"), 2));
    assert_eq!(f[11], (s("name.all.autocomplete_ascii._3gram"), 1));
}

#[test]
fn search_request_document() {
    let r = search_request("Pra", Language::EN, None);
    assert_eq!(r.size, 10);
    assert_eq!(r.index, "city");
    let expected = String::from(
        "{\"query\":{\"function_score\":{\"query\":{\"bool\":{\"must\":[{\"multi_match\":{\"query\":\"Pra\",\"fields\":[",
    ) + "\"name.en.autocomplete^8.0\",\"name.en.autocomplete._2gram^8.0\",\"name.en.autocomplete._3gram^8.0\","
        + "\"name.en.autocomplete_ascii^4.0\",\"name.en.autocomplete_ascii._2gram^4.0\",\"name.en.autocomplete_ascii._3gram^4.0\","
        + "\"name.all.autocomplete^2.0\",\"name.all.autocomplete._2gram^2.0\",\"name.all.autocomplete._3gram^2.0\","
        + "\"name.all.autocomplete_ascii^1.0\",\"name.all.autocomplete_ascii._2gram^1.0\",\"name.all.autocomplete_ascii._3gram^1.0\""
        + "],\"type\":\"bool_prefix\"}}],\"filter\":[]}},\"functions\":[{\"field_value_factor\":{\"field\":\"population\",\"modifier\":\"ln2p\",\"missing\":500}}]}}}";
    assert_eq!(r.body, expected);
}

#[test]
fn search_query_text_is_escaped() {
    let r = search_request("a\"},{\"x", Language::CS, Some("C\\Z"));
    assert!(r.body.contains("\"query\":\"a\\\"},{\\\"x\",\"fields\""));
    assert!(r.body.contains("\"filter\":[{\"term\":{\"countryIso\":\"C\\\\Z\"}}]"));
    let direct = search_body(&s("\"q\""), Language::CS, Some(&s("\"CZ\"")));
    assert!(direct.contains("\"query\":\"q\",\"fields\""));
    assert!(direct.contains("\"countryIso\":\"CZ\"}}]"));
}

#[test]
fn closest_request_document() {
    let r = closest_request(Coordinates { lat: 50_087_451, lon: -14_420_671 }, None);
    assert_eq!(r.size, 1);
    assert_eq!(
        r.body,
        "{\"query\":{\"bool\":{\"must\":{\"match_all\":{}},\"should\":{\"geo_shape\":{\"geometry\":{\"shape\":{\"type\":\"Point\",\"coordinates\":[-14.420671,50.087451]}},\"boost\":1}}}},\"sort\":[\"_score\",{\"_geo_distance\":{\"centroid\":{\"lat\":50.087451,\"lon\":-14.420671}}}]}"
    );
    let r = closest_request(Coordinates { lat: 0, lon: 0 }, Some(false));
    assert!(r.body.starts_with("{\"query\":{\"bool\":{\"must\":{\"term\":{\"isFeatured\":false}},"));
}

#[test]
fn closest_plans() {
    let q = ClosestQuery { lat: Some(50_000_000), lon: Some(14_000_000), language: Language::CS };
    let c = Coordinates { lat: 50_000_000, lon: 14_000_000 };
    assert_eq!(plan_closest(&q, None).unwrap(), ClosestPlan::Near(c, None));
    let q = ClosestQuery { lat: Some(91_000_000), lon: Some(14_000_000), language: Language::CS };
    assert!(matches!(plan_closest(&q, None), Err(ErrorResponse::BadRequest(_))));
    let q = ClosestQuery { lat: None, lon: Some(1), language: Language::CS };
    assert!(matches!(q.coordinates(), Err(ErrorResponse::BadRequest(_))));
    let q = ClosestQuery { lat: None, lon: None, language: Language::SK };
    assert_eq!(plan_closest(&q, Some(c)).unwrap(), ClosestPlan::Near(c, Some(true)));
    assert_eq!(plan_closest(&q, None).unwrap(), ClosestPlan::Fixed(1_108_800_123));
}

#[test]
fn default_cities_and_preferred_countries() {
    assert_eq!(default_city_id(Language::CS), 101_748_113);
    assert_eq!(default_city_id(Language::DE), 101_909_779);
    assert_eq!(default_city_id(Language::EN), 101_748_113);
    assert_eq!(default_city_id(Language::PL), 101_752_777);
    assert_eq!(default_city_id(Language::SK), 1_108_800_123);
    assert_eq!(preferred_country_iso(Language::EN), "CZ");
    assert_eq!(preferred_country_iso(Language::PL), "PL");
}

#[test]
fn fastly_zero_point_is_unknown() {
    assert_eq!(fastly_geo_coords(Some(0), Some(0)), None);
    assert_eq!(fastly_geo_coords(Some(0), None), None);
    assert_eq!(fastly_geo_coords(Some(0), Some(1)), Some(Coordinates { lat: 0, lon: 1 }));
}

#[test]
fn country_first_is_stable() {
    let mk = |id: u64, iso: &str| City {
        id,
        region_id: 1,
        is_featured: true,
        country_iso: s(iso),
        population: None,
        timezone: s("UTC"),
        names: Vec::new(),
    };
    let cities = vec![mk(1, "PL"), mk(2, "CZ"), mk(3, "DE"), mk(4, "CZ"), mk(5, "PL")];
    let ids: Vec<u64> = prefer_country(&cities, &s("CZ")).iter().map(|c| c.id).collect();
    assert_eq!(ids, vec![2, 4, 1, 3, 5]);
    let ids: Vec<u64> = prefer_country(&cities, &s("SK")).iter().map(|c| c.id).collect();
    assert_eq!(ids, vec![1, 2, 3, 4, 5]);
}

#[test]
fn closest_of_needs_exactly_one() {
    let mk = |id: u64| City {
        id,
        region_id: 1,
        is_featured: false,
        country_iso: s("CZ"),
        population: None,
        timezone: s("UTC"),
        names: Vec::new(),
    };
    assert_eq!(closest_of(vec![mk(3)]).unwrap().id, 3);
    match closest_of(vec![mk(1), mk(2)]) {
        Err(ErrorResponse::InternalServerError(m)) => assert_eq!(m, "Called single() on multiple-element iterator"),
        other => panic!("unexpected {:?}", other),
    }
    match closest_of(Vec::new()) {
        Err(ErrorResponse::InternalServerError(m)) => assert_eq!(m, "Called single() on empty iterator"),
        other => panic!("unexpected {:?}", other),
    }
}

#[test]
fn reply_outcomes() {
    let e = |status: Option<u16>| StoreError { status, description: s("boom") };
    match city_from_reply(9, Err(e(Some(404)))) {
        Err(ErrorResponse::NotFound(m)) => assert_eq!(m, "City#9 not found."),
        other => panic!("unexpected {:?}", other),
    }
    match region_from_reply(0, &Err(e(Some(404)))) {
        Err(ErrorResponse::NotFound(m)) => assert_eq!(m, "Region#0 not found."),
        other => panic!("unexpected {:?}", other),
    }
    match city_from_reply(9, Err(e(None))) {
        Err(ErrorResponse::InternalServerError(m)) => assert_eq!(m, "Elasticsearch error: boom"),
        other => panic!("unexpected {:?}", other),
    }
    match cities_from_reply(&Err(e(Some(404)))) {
        Err(ErrorResponse::InternalServerError(m)) => assert_eq!(m, "Elasticsearch error: boom"),
        other => panic!("unexpected {:?}", other),
    }
    let bad: Document = vec![(s("id"), Field::UInt(1))];
    match cities_from_reply(&Ok(vec![full_city(), bad, Vec::new()])) {
        Err(ErrorResponse::InternalServerError(m)) => assert_eq!(m, "Elasticsearch error: City document has a missing or invalid field: regionId"),
        other => panic!("unexpected {:?}", other),
    }
    let cs = cities_from_reply(&Ok(vec![full_city(), full_city()])).unwrap();
    assert_eq!(cs.len(), 2);
}

#[test]
fn control_characters_are_escaped() {
    let r = search_request("a\nb\u{1}\\", Language::EN, None);
    assert!(r.body.contains("\"query\":\"a\\nb\\u0001\\\\\",\"fields\""));
}
