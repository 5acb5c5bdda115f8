//! Requests sent to the backing store: point lookups and the three search query documents.

use vstd::prelude::*;
use crate::entity::{EntityKind, index_name};
use crate::model::{Coordinates, Language, name_key_of};
use crate::text::{decimal, digit_char, micro_decimal, push_decimal, push_micro_decimal};

verus! {

/// Point lookup of one document by id.
#[derive(Debug)]
pub struct GetRequest {
    pub index: String,
    pub id: u64,
    /// Fields the store is asked to leave out of the returned document.
    pub source_excludes: Vec<String>,
}

/// Search in a collection with a JSON query document.
#[derive(Debug)]
pub struct SearchRequest {
    pub index: String,
    pub body: String,
    /// Largest number of hits to return.
    pub size: u32,
    /// Fields the store is asked to leave out of the returned documents.
    pub source_excludes: Vec<String>,
}

/// Heavy fields left out of every fetched document.
pub open spec fn excluded_fields() -> Seq<Seq<char>> {
    seq!["centroid"@, "geometry"@, "population"@]
}

/// Largest number of hits of a relevance search.
pub const SEARCH_SIZE: u32 = 10;

/// Largest number of featured cities listed.
pub const FEATURED_SIZE: u32 = 1000;

/// Number of hits of a geo-nearest query.
pub const CLOSEST_SIZE: u32 = 1;

fn excluded() -> (r: Vec<String>)
    ensures
        r.deep_view() == excluded_fields(),
{
    let r = vec![String::from_str("centroid"), String::from_str("geometry"), String::from_str("population")];
    assert(r.deep_view() =~= excluded_fields());
    r
}

/// Point lookup of the entity of `kind` with id `id`.
pub fn get_request(kind: EntityKind, id: u64) -> (r: GetRequest)
    ensures
        r.index@ == index_name(kind),
        r.id == id,
        r.source_excludes.deep_view() == excluded_fields(),
{
    GetRequest { index: kind.index(), id, source_excludes: excluded() }
}

fn city_search(body: String, size: u32) -> (r: SearchRequest)
    ensures
        r.index@ == index_name(EntityKind::City),
        r.body == body,
        r.size == size,
        r.source_excludes.deep_view() == excluded_fields(),
{
    SearchRequest { index: EntityKind::City.index(), body, size, source_excludes: excluded() }
}

/// A lowercase hexadecimal digit.
pub open spec fn hex_digit(d: nat) -> char {
    if d < 10 { digit_char(d) }
    else if d == 10 { 'a' }
    else if d == 11 { 'b' }
    else if d == 12 { 'c' }
    else if d == 13 { 'd' }
    else if d == 14 { 'e' }
    else { 'f' }
}

/// How one character stands inside a JSON string: quote and backslash behind a backslash,
/// the control characters below U+0020 as `\b \t \n \f \r` or `\u00XX`, all else as itself.
pub open spec fn json_escape(c: char) -> Seq<char> {
    let n = c as u32;
    if c == '"' {
        seq!['\\', '"']
    } else if c == '\\' {
        seq!['\\', '\\']
    } else if n == 8 {
        seq!['\\', 'b']
    } else if n == 9 {
        seq!['\\', 't']
    } else if n == 10 {
        seq!['\\', 'n']
    } else if n == 12 {
        seq!['\\', 'f']
    } else if n == 13 {
        seq!['\\', 'r']
    } else if n < 32 {
        seq!['\\', 'u', '0', '0', hex_digit((n / 16) as nat), hex_digit((n % 16) as nat)]
    } else {
        seq![c]
    }
}

/// The characters of `s`, each escaped for a JSON string.
pub open spec fn json_escaped(s: Seq<char>) -> Seq<char>
    decreases s.len(),
{
    if s.len() == 0 {
        Seq::empty()
    } else {
        json_escaped(s.drop_last()) + json_escape(s.last())
    }
}

/// The JSON string literal of `s`: quoted and escaped.
pub open spec fn json_string_of(s: Seq<char>) -> Seq<char> {
    seq!['"'] + json_escaped(s) + seq!['"']
}

/// Relies on `serde_json::to_string`, which renders a `str` between quotes, escaping quote,
/// backslash and the control characters below U+0020 (`format_escaped_str` and its `ESCAPE`
/// table). Writing a `str` into a `String` does not fail.
#[verifier::external_body]
fn json_string(s: &str) -> (r: String)
    ensures
        r@ == json_string_of(s@),
{
    serde_json::to_string(s).unwrap_or_default()
}

/// Query document of the featured-city listing: featured cities, by country, then by
/// descending population.
pub open spec fn featured_body() -> Seq<char> {
    "{\"query\":{\"term\":{\"isFeatured\":true}},\"sort\":[\"countryIso\",{\"population\":\"desc\"}]}"@
}

/// The featured-city listing request.
pub fn featured_request() -> (r: SearchRequest)
    ensures
        r.index@ == index_name(EntityKind::City),
        r.body@ == featured_body(),
        r.size == FEATURED_SIZE,
        r.source_excludes.deep_view() == excluded_fields(),
{
    let body = String::from_str(
        "{\"query\":{\"term\":{\"isFeatured\":true}},\"sort\":[\"countryIso\",{\"population\":\"desc\"}]}",
    );
    city_search(body, FEATURED_SIZE)
}

/// The fields a relevance search matches against, each with its boost. The requested
/// language's diacritic fields weigh 8, its ASCII-folded fields 4, the all-language diacritic
/// fields 2 and the all-language ASCII-folded fields 1.
pub open spec fn search_fields(language: Language) -> Seq<(Seq<char>, u32)> {
    let k = name_key_of(language);
    seq![
        (k + ".autocomplete"@, 8u32),
        (k + ".autocomplete._2gram"@, 8u32),
        (k + ".autocomplete._3gram"@, 8u32),
        (k + ".autocomplete_ascii"@, 4u32),
        (k + ".autocomplete_ascii._2gram"@, 4u32),
        (k + ".autocomplete_ascii._3gram"@, 4u32),
        ("name.all.autocomplete"@, 2u32),
        ("name.all.autocomplete._2gram"@, 2u32),
        ("name.all.autocomplete._3gram"@, 2u32),
        ("name.all.autocomplete_ascii"@, 1u32),
        ("name.all.autocomplete_ascii._2gram"@, 1u32),
        ("name.all.autocomplete_ascii._3gram"@, 1u32),
    ]
}

fn joined(a: &String, b: &str) -> (r: String)
    ensures
        r@ == a@ + b@,
{
    let mut r = a.clone();
    r.append(b);
    r
}

/// The weighted fields of a relevance search in `language`.
pub fn search_field_list(language: Language) -> (r: Vec<(String, u32)>)
    ensures
        r.deep_view() == search_fields(language),
{
    let k = language.name_key();
    let r = vec![
        (joined(&k, ".autocomplete"), 8u32),
        (joined(&k, ".autocomplete._2gram"), 8u32),
        (joined(&k, ".autocomplete._3gram"), 8u32),
        (joined(&k, ".autocomplete_ascii"), 4u32),
        (joined(&k, ".autocomplete_ascii._2gram"), 4u32),
        (joined(&k, ".autocomplete_ascii._3gram"), 4u32),
        (String::from_str("name.all.autocomplete"), 2u32),
        (String::from_str("name.all.autocomplete._2gram"), 2u32),
        (String::from_str("name.all.autocomplete._3gram"), 2u32),
        (String::from_str("name.all.autocomplete_ascii"), 1u32),
        (String::from_str("name.all.autocomplete_ascii._2gram"), 1u32),
        (String::from_str("name.all.autocomplete_ascii._3gram"), 1u32),
    ];
    assert(r.deep_view() =~= search_fields(language));
    r
}

/// One weighted field as the store reads it: `"<field>^<boost>.0"`.
pub open spec fn boosted_field(f: (Seq<char>, u32)) -> Seq<char> {
    "\""@ + f.0 + "^"@ + decimal(f.1 as nat) + ".0\""@
}

/// A list of weighted fields, comma-separated.
pub open spec fn boosted_fields(fs: Seq<(Seq<char>, u32)>) -> Seq<char>
    decreases fs.len(),
{
    if fs.len() == 0 {
        Seq::empty()
    } else if fs.len() == 1 {
        boosted_field(fs[0])
    } else {
        boosted_fields(fs.drop_last()) + ","@ + boosted_field(fs.last())
    }
}

fn push_boosted_fields(s: &mut String, fs: &Vec<(String, u32)>)
    ensures
        final(s)@ == old(s)@ + boosted_fields(fs.deep_view()),
{
    let ghost start = s@;
    let mut i: usize = 0;
    assert(fs.deep_view().take(0) =~= Seq::<(Seq<char>, u32)>::empty());
    while i < fs.len()
        invariant
            i <= fs@.len(),
            s@ == start + boosted_fields(fs.deep_view().take(i as int)),
        decreases fs@.len() - i,
    {
        let ghost fv = fs.deep_view();
        assert(fv.take(i + 1).drop_last() =~= fv.take(i as int));
        if i > 0 {
            s.append(",");
        }
        s.append("\"");
        s.append(fs[i].0.as_str());
        s.append("^");
        push_decimal(s, fs[i].1 as u64);
        s.append(".0\"");
        assert(s@ =~= start + boosted_fields(fv.take(i + 1)));
        i += 1;
    }
    assert(fs.deep_view().take(fs@.len() as int) =~= fs.deep_view());
}

/// The country filter of a relevance search, given the country code as a JSON string.
pub open spec fn country_filter(quoted_iso: Option<Seq<char>>) -> Seq<char> {
    match quoted_iso {
        Some(q) => "[{\"term\":{\"countryIso\":"@ + q + "}}]"@,
        None => "[]"@,
    }
}

/// Relevance search document, given the query text and the country code as JSON strings.
/// All words of the query must prefix-match one of the weighted fields; the score is then
/// multiplied by ln(2 + population), a missing population counting as 500.
pub open spec fn search_body_of(
    quoted_query: Seq<char>,
    language: Language,
    quoted_iso: Option<Seq<char>>,
) -> Seq<char> {
    "{\"query\":{\"function_score\":{\"query\":{\"bool\":{\"must\":[{\"multi_match\":{\"query\":"@
        + quoted_query + ",\"fields\":["@ + boosted_fields(search_fields(language))
        + "],\"type\":\"bool_prefix\"}}],\"filter\":"@ + country_filter(quoted_iso)
        + "}},\"functions\":[{\"field_value_factor\":{\"field\":\"population\",\"modifier\":\"ln2p\",\"missing\":500}}]}}}"@
}

/// Renders the relevance search document from the query text and the country code, both
/// already rendered as JSON strings.
pub fn search_body(quoted_query: &String, language: Language, quoted_iso: Option<&String>) -> (r: String)
    ensures
        r@ == search_body_of(
            quoted_query@,
            language,
            match quoted_iso { Some(q) => Some(q@), None => None },
        ),
{
    let mut s = String::from_str(
        "{\"query\":{\"function_score\":{\"query\":{\"bool\":{\"must\":[{\"multi_match\":{\"query\":",
    );
    s.append(quoted_query.as_str());
    s.append(",\"fields\":[");
    let fields = search_field_list(language);
    push_boosted_fields(&mut s, &fields);
    s.append("],\"type\":\"bool_prefix\"}}],\"filter\":");
    match quoted_iso {
        Some(q) => {
            s.append("[{\"term\":{\"countryIso\":");
            s.append(q.as_str());
            s.append("}}]");
        },
        None => {
            s.append("[]");
        },
    }
    s.append(
        "}},\"functions\":[{\"field_value_factor\":{\"field\":\"population\",\"modifier\":\"ln2p\",\"missing\":500}}]}}}",
    );
    assert(s@ =~= search_body_of(
        quoted_query@,
        language,
        match quoted_iso { Some(q) => Some(q@), None => None },
    ));
    s
}

/// The relevance search request for `query` in `language`, optionally limited to one country.
pub fn search_request(query: &str, language: Language, country_iso: Option<&str>) -> (r: SearchRequest)
    ensures
        r.index@ == index_name(EntityKind::City),
        r.body@ == search_body_of(
            json_string_of(query@),
            language,
            match country_iso { Some(c) => Some(json_string_of(c@)), None => None },
        ),
        r.size == SEARCH_SIZE,
        r.source_excludes.deep_view() == excluded_fields(),
{
    let quoted_query = json_string(query);
    let body = match country_iso {
        Some(c) => {
            let quoted_iso = json_string(c);
            search_body(&quoted_query, language, Some(&quoted_iso))
        },
        None => search_body(&quoted_query, language, None),
    };
    city_search(body, SEARCH_SIZE)
}

/// The positive clause of a geo-nearest query: the featured filter, or one that matches all.
pub open spec fn closest_must(is_featured: Option<bool>) -> Seq<char> {
    match is_featured {
        Some(true) => "{\"term\":{\"isFeatured\":true}}"@,
        Some(false) => "{\"term\":{\"isFeatured\":false}}"@,
        None => "{\"match_all\":{}}"@,
    }
}

/// Start of every geo-nearest query document, up to its positive clause.
pub open spec fn closest_head() -> Seq<char> {
    "{\"query\":{\"bool\":{\"must\":"@
}

/// The rest of a geo-nearest query document after its positive clause: cities whose shape
/// contains the point score one more, ties are broken by the distance of the centroid from
/// the point.
pub open spec fn closest_tail(coords: Coordinates) -> Seq<char> {
    let lat = micro_decimal(coords.lat as int);
    let lon = micro_decimal(coords.lon as int);
    ",\"should\":{\"geo_shape\":{\"geometry\":{\"shape\":{\"type\":\"Point\",\"coordinates\":["@
        + lon + ","@ + lat
        + "]}},\"boost\":1}}}},\"sort\":[\"_score\",{\"_geo_distance\":{\"centroid\":{\"lat\":"@
        + lat + ",\"lon\":"@ + lon + "}}}]}"@
}

/// Geo-nearest query document.
pub open spec fn closest_body_of(coords: Coordinates, is_featured: Option<bool>) -> Seq<char> {
    closest_head() + closest_must(is_featured) + closest_tail(coords)
}

/// The geo-nearest request for `coords`, optionally limited by the featured flag.
pub fn closest_request(coords: Coordinates, is_featured: Option<bool>) -> (r: SearchRequest)
    ensures
        r.index@ == index_name(EntityKind::City),
        r.body@ == closest_body_of(coords, is_featured),
        r.size == CLOSEST_SIZE,
        r.source_excludes.deep_view() == excluded_fields(),
{
    let mut s = String::from_str("{\"query\":{\"bool\":{\"must\":");
    match is_featured {
        Some(true) => s.append("{\"term\":{\"isFeatured\":true}}"),
        Some(false) => s.append("{\"term\":{\"isFeatured\":false}}"),
        None => s.append("{\"match_all\":{}}"),
    }
    s.append(",\"should\":{\"geo_shape\":{\"geometry\":{\"shape\":{\"type\":\"Point\",\"coordinates\":[");
    push_micro_decimal(&mut s, coords.lon);
    s.append(",");
    push_micro_decimal(&mut s, coords.lat);
    s.append("]}},\"boost\":1}}}},\"sort\":[\"_score\",{\"_geo_distance\":{\"centroid\":{\"lat\":");
    push_micro_decimal(&mut s, coords.lat);
    s.append(",\"lon\":");
    push_micro_decimal(&mut s, coords.lon);
    s.append("}}}]}");
    assert(s@ =~= closest_body_of(coords, is_featured));
    city_search(s, CLOSEST_SIZE)
}

} // verus!
