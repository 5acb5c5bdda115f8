//! Properties that relate the library's operations to each other.

use vstd::prelude::*;
use crate::compose::{CityResponseView, compose_one};
use crate::entity::{CityView, DocView, EntityKind, RegionView};
use crate::model::{Coordinates, ErrorView, Language, lookup, name_key_of};
use crate::query::{hex_digit, json_escape, json_escaped, closest_body_of, closest_head, closest_tail, search_fields, FEATURED_SIZE, SEARCH_SIZE};
use crate::repository::{capped, city_outcome, get_failure, region_lookup, region_outcome, search_outcome};

verus! {

/// A point lookup that the store answers with the not-found status yields `NotFound`, never
/// an internal error, for Cities and Regions alike and whatever the description.
pub proof fn not_found_status_is_not_found(id: u64, description: Seq<char>)
    ensures
        city_outcome(id, Err((Some(404u16), description))) matches Err(e) && e is NotFound,
        region_outcome(id, Err((Some(404u16), description))) matches Err(e) && e is NotFound,
        get_failure(EntityKind::City, id, Some(404u16), description) is NotFound,
        get_failure(EntityKind::Region, id, Some(404u16), description) is NotFound,
{
}

/// Looking up a Region a second time after a successful lookup makes no exchange with the
/// store, leaves the cache as it was, and returns the same Region.
pub proof fn second_region_lookup_is_cached<S>(
    store0: S,
    cache0: Map<u64, RegionView>,
    id: u64,
    first: Result<RegionView, ErrorView>,
    store1: S,
    cache1: Map<u64, RegionView>,
    second: Result<RegionView, ErrorView>,
    store2: S,
    cache2: Map<u64, RegionView>,
)
    requires
        region_lookup(store0, cache0, id, first, store1, cache1),
        first is Ok,
        region_lookup(store1, cache1, id, second, store2, cache2),
    ensures
        store2 == store1,
        cache2 == cache1,
        second == first,
{
}

/// Without a featured filter, the geo-nearest query's positive clause matches all cities.
pub proof fn closest_without_filter_matches_all(coords: Coordinates)
    ensures
        closest_body_of(coords, None) == closest_head() + "{\"match_all\":{}}"@ + closest_tail(coords),
{
}

/// In a relevance search the fields come in order of non-increasing boost, and the requested
/// language's diacritic fields weigh more than the all-language ASCII-folded ones.
pub proof fn search_boosts_prefer_language_diacritics(language: Language)
    ensures
        search_fields(language).len() == 12,
        forall|i: int, j: int| 0 <= i < j < 12 ==> search_fields(language)[i].1 >= search_fields(language)[j].1,
        forall|i: int, j: int| 0 <= i < 3 && 9 <= j < 12 ==> search_fields(language)[i].1 > search_fields(language)[j].1,
        forall|i: int| 0 <= i < 3 ==> search_fields(language)[i].0.take(name_key_of(language).len() as int)
            == name_key_of(language),
{
    let k = name_key_of(language);
    assert((k + ".autocomplete"@).take(k.len() as int) =~= k);
    assert((k + ".autocomplete._2gram"@).take(k.len() as int) =~= k);
    assert((k + ".autocomplete._3gram"@).take(k.len() as int) =~= k);
}

/// A City whose names lack the requested language's key is a bad request naming that key,
/// whatever its Region; no other language is substituted.
pub proof fn missing_name_is_bad_request(city: CityView, region: RegionView, language: Language)
    requires
        lookup(city.names, name_key_of(language)) is None,
    ensures
        compose_one(city, Ok(region), name_key_of(language))
            == Err::<CityResponseView, ErrorView>(ErrorView::BadRequest(name_key_of(language))),
{
}

/// A relevance search yields at most ten cities, and featured cities at most a thousand,
/// whatever the store replies.
pub proof fn searches_are_capped(reply: Result<Seq<DocView>, (Option<u16>, Seq<char>)>)
    ensures
        capped(search_outcome(reply), SEARCH_SIZE as nat) matches Ok(cs) ==> cs.len() <= 10,
        capped(search_outcome(reply), FEATURED_SIZE as nat) matches Ok(cs) ==> cs.len() <= 1000,
{
}

/// Text placed into a query document cannot close its JSON string early: in the escaped text
/// every quote directly follows a backslash that the escaping put there.
pub proof fn escaped_quotes_follow_backslash(s: Seq<char>)
    ensures
        forall|k: int| 0 <= k < json_escaped(s).len() && #[trigger] json_escaped(s)[k] == '"'
            ==> k > 0 && json_escaped(s)[k - 1] == '\\',
    decreases s.len(),
{
    if s.len() > 0 {
        let prefix = json_escaped(s.drop_last());
        let tail = json_escape(s.last());
        escaped_quotes_follow_backslash(s.drop_last());
        assert(json_escaped(s) == prefix + tail);
        assert forall|k: int| 0 <= k < json_escaped(s).len() && #[trigger] json_escaped(s)[k] == '"'
            implies k > 0 && json_escaped(s)[k - 1] == '\\' by {
            if k < prefix.len() {
                assert(json_escaped(s)[k] == prefix[k]);
                assert(json_escaped(s)[k - 1] == prefix[k - 1]);
            } else {
                let t = k - prefix.len();
                assert(json_escaped(s)[k] == tail[t]);
                let n = s.last() as u32;
                if n < 32 && n != 8 && n != 9 && n != 10 && n != 12 && n != 13 {
                    let hi = (n / 16) as nat;
                    let lo = (n % 16) as nat;
                    assert(hex_digit(hi) != '"');
                    assert(hex_digit(lo) != '"');
                }
                assert(t == 1);
                assert(json_escaped(s)[k - 1] == tail[0]);
            }
        }
    }
}

/// The key of Slovak names is `name.sk`.
pub proof fn slovak_name_key()
    ensures
        name_key_of(Language::SK) == "name.sk"@,
{
    reveal_strlit("name.sk");
    assert(name_key_of(Language::SK) =~= "name.sk"@);
}

} // verus!
