//! Decoding of search-engine documents into City and Region entities.

use vstd::prelude::*;
use crate::model::{ErrorResponse, ErrorView, Names};

verus! {

/// The value of one top-level field of a stored document, as far as decoding reads it.
#[derive(Clone, Debug)]
pub enum Field {
    Bool(bool),
    /// A non-negative integer.
    UInt(u64),
    Str(String),
    /// Anything else: null, a negative or fractional number, an array or an object.
    Other,
}

/// The mathematical value of a [`Field`].
pub enum FieldView {
    Bool(bool),
    UInt(u64),
    Str(Seq<char>),
    Other,
}

impl DeepView for Field {
    type V = FieldView;

    open spec fn deep_view(&self) -> FieldView {
        match self {
            Field::Bool(b) => FieldView::Bool(*b),
            Field::UInt(n) => FieldView::UInt(*n),
            Field::Str(s) => FieldView::Str(s@),
            Field::Other => FieldView::Other,
        }
    }
}

/// A stored document: its top-level fields in order.
pub type Document = Vec<(String, Field)>;

/// A document's mathematical value.
pub type DocView = Seq<(Seq<char>, FieldView)>;

/// The two collections of the backing store.
#[derive(Clone, Copy, Debug, PartialEq, Eq, Structural)]
pub enum EntityKind {
    City,
    Region,
}

/// Name of the collection that holds entities of `kind`.
pub open spec fn index_name(kind: EntityKind) -> Seq<char> {
    match kind {
        EntityKind::City => "city"@,
        EntityKind::Region => "region"@,
    }
}

/// Name of an entity kind in messages.
pub open spec fn entity_name(kind: EntityKind) -> Seq<char> {
    match kind {
        EntityKind::City => "City"@,
        EntityKind::Region => "Region"@,
    }
}

impl EntityKind {
    /// Name of the collection that holds entities of this kind.
    pub fn index(self) -> (r: String)
        ensures
            r@ == index_name(self),
    {
        match self {
            EntityKind::City => String::from_str("city"),
            EntityKind::Region => String::from_str("region"),
        }
    }

    /// Name of this kind in messages.
    pub fn entity(self) -> (r: String)
        ensures
            r@ == entity_name(self),
    {
        match self {
            EntityKind::City => String::from_str("City"),
            EntityKind::Region => String::from_str("Region"),
        }
    }
}

/// Whether `key` is a field that entities of `kind` decode by name; all other fields are names.
pub open spec fn is_typed_field(kind: EntityKind, key: Seq<char>) -> bool {
    match kind {
        EntityKind::City => key == "id"@ || key == "regionId"@ || key == "isFeatured"@
            || key == "countryIso"@ || key == "population"@ || key == "timezone"@,
        EntityKind::Region => key == "id"@ || key == "countryIso"@,
    }
}

/// The value of the first field named `key`.
pub open spec fn field_of(doc: DocView, key: Seq<char>) -> Option<FieldView>
    decreases doc.len(),
{
    if doc.len() == 0 {
        None
    } else if doc[0].0 == key {
        Some(doc[0].1)
    } else {
        field_of(doc.drop_first(), key)
    }
}

/// Every field that is not decoded by name holds a string.
pub open spec fn names_are_strings(kind: EntityKind, doc: DocView) -> bool {
    forall|i: int| 0 <= i < doc.len() && !is_typed_field(kind, #[trigger] doc[i].0) ==> doc[i].1 is Str
}

/// The (key, name) pairs of the fields that are not decoded by name, in document order.
pub open spec fn names_of(kind: EntityKind, doc: DocView) -> Seq<(Seq<char>, Seq<char>)>
    decreases doc.len(),
{
    if doc.len() == 0 {
        Seq::empty()
    } else {
        let prev = names_of(kind, doc.drop_last());
        let last = doc.last();
        match last.1 {
            FieldView::Str(s) => if is_typed_field(kind, last.0) { prev } else { prev.push((last.0, s)) },
            _ => prev,
        }
    }
}

/// No two pairs share a key.
pub open spec fn unique_keys<V>(s: Seq<(Seq<char>, V)>) -> bool {
    forall|a: int, b: int| 0 <= a < b < s.len() ==> s[a].0 != s[b].0
}

/// A required non-negative integer field.
pub open spec fn required_uint(doc: DocView, key: Seq<char>) -> bool {
    field_of(doc, key) matches Some(FieldView::UInt(_))
}

/// A required string field.
pub open spec fn required_str(doc: DocView, key: Seq<char>) -> bool {
    field_of(doc, key) matches Some(FieldView::Str(_))
}

pub open spec fn uint_of(doc: DocView, key: Seq<char>) -> u64 {
    match field_of(doc, key) {
        Some(FieldView::UInt(n)) => n,
        _ => 0,
    }
}

pub open spec fn str_of(doc: DocView, key: Seq<char>) -> Seq<char> {
    match field_of(doc, key) {
        Some(FieldView::Str(s)) => s,
        _ => Seq::empty(),
    }
}

/// City entity as stored in the backing store.
#[derive(Debug)]
pub struct City {
    pub id: u64,
    pub region_id: u64,
    pub is_featured: bool,
    pub country_iso: String,
    /// Absent where the store holds none or the fetch left it out.
    pub population: Option<u32>,
    pub timezone: String,
    pub names: Names,
}

/// The mathematical value of a [`City`].
pub struct CityView {
    pub id: u64,
    pub region_id: u64,
    pub is_featured: bool,
    pub country_iso: Seq<char>,
    pub population: Option<u32>,
    pub timezone: Seq<char>,
    pub names: Seq<(Seq<char>, Seq<char>)>,
}

impl View for City {
    type V = CityView;

    open spec fn view(&self) -> CityView {
        CityView {
            id: self.id,
            region_id: self.region_id,
            is_featured: self.is_featured,
            country_iso: self.country_iso@,
            population: self.population,
            timezone: self.timezone@,
            names: self.names.deep_view(),
        }
    }
}

/// Region entity as stored in the backing store.
#[derive(Clone, Debug)]
pub struct Region {
    pub id: u64,
    pub country_iso: String,
    pub names: Names,
}

/// The mathematical value of a [`Region`].
pub struct RegionView {
    pub id: u64,
    pub country_iso: Seq<char>,
    pub names: Seq<(Seq<char>, Seq<char>)>,
}

impl View for Region {
    type V = RegionView;

    open spec fn view(&self) -> RegionView {
        RegionView { id: self.id, country_iso: self.country_iso@, names: self.names.deep_view() }
    }
}

/// A document decodes to a City: integer `id` and `regionId`, string `countryIso` and
/// `timezone`, `isFeatured` a boolean or absent, `population` absent or fitting 32 bits, and
/// every other field a string.
pub open spec fn city_decodes(doc: DocView) -> bool {
    &&& required_uint(doc, "id"@)
    &&& required_uint(doc, "regionId"@)
    &&& (field_of(doc, "isFeatured"@) is None || field_of(doc, "isFeatured"@) matches Some(FieldView::Bool(_)))
    &&& required_str(doc, "countryIso"@)
    &&& (field_of(doc, "population"@) is None
        || (field_of(doc, "population"@) matches Some(FieldView::UInt(n)) && n <= u32::MAX))
    &&& required_str(doc, "timezone"@)
    &&& names_are_strings(EntityKind::City, doc)
}

/// The City a document decodes to; a missing `isFeatured` is `false`.
pub open spec fn city_of(doc: DocView) -> CityView {
    CityView {
        id: uint_of(doc, "id"@),
        region_id: uint_of(doc, "regionId"@),
        is_featured: field_of(doc, "isFeatured"@) matches Some(FieldView::Bool(b)) && b,
        country_iso: str_of(doc, "countryIso"@),
        population: match field_of(doc, "population"@) {
            Some(FieldView::UInt(n)) => Some(n as u32),
            _ => None,
        },
        timezone: str_of(doc, "timezone"@),
        names: names_of(EntityKind::City, doc),
    }
}

/// A document decodes to a Region: integer `id`, string `countryIso`, every other field a string.
pub open spec fn region_decodes(doc: DocView) -> bool {
    &&& required_uint(doc, "id"@)
    &&& required_str(doc, "countryIso"@)
    &&& names_are_strings(EntityKind::Region, doc)
}

/// The Region a document decodes to.
pub open spec fn region_of(doc: DocView) -> RegionView {
    RegionView {
        id: uint_of(doc, "id"@),
        country_iso: str_of(doc, "countryIso"@),
        names: names_of(EntityKind::Region, doc),
    }
}

fn is_key(k: &String, lit: &str) -> (r: bool)
    ensures
        r == (k@ == lit@),
{
    *k == String::from_str(lit)
}

fn is_typed(kind: EntityKind, k: &String) -> (r: bool)
    ensures
        r == is_typed_field(kind, k@),
{
    match kind {
        EntityKind::City => is_key(k, "id") || is_key(k, "regionId") || is_key(k, "isFeatured")
            || is_key(k, "countryIso") || is_key(k, "population") || is_key(k, "timezone"),
        EntityKind::Region => is_key(k, "id") || is_key(k, "countryIso"),
    }
}

/// The first field of `doc` named `key`.
pub fn find_field<'a>(doc: &'a Document, key: &str) -> (r: Option<&'a Field>)
    ensures
        match r {
            Some(f) => field_of(doc.deep_view(), key@) == Some(f.deep_view()),
            None => field_of(doc.deep_view(), key@) is None,
        },
{
    let mut i: usize = 0;
    assert(doc.deep_view().skip(0) =~= doc.deep_view());
    while i < doc.len()
        invariant
            i <= doc@.len(),
            field_of(doc.deep_view(), key@) == field_of(doc.deep_view().skip(i as int), key@),
        decreases doc@.len() - i,
    {
        assert(doc.deep_view().skip(i as int).drop_first() =~= doc.deep_view().skip(i + 1));
        if is_key(&doc[i].0, key) {
            return Some(&doc[i].1);
        }
        i += 1;
    }
    None
}

/// The names of a document, or `None` where a field that is not decoded by name is no string.
pub fn document_names(kind: EntityKind, doc: &Document) -> (r: Option<Names>)
    ensures
        r is Some <==> names_are_strings(kind, doc.deep_view()),
        r matches Some(n) ==> n.deep_view() == names_of(kind, doc.deep_view()),
        r matches Some(n) ==> (unique_keys(doc.deep_view()) ==> unique_keys(n.deep_view())),
{
    let mut names: Names = Vec::new();
    let mut i: usize = 0;
    while i < doc.len()
        invariant
            i <= doc@.len(),
            forall|m: int| 0 <= m < names@.len() ==> exists|j: int| 0 <= j < i && doc.deep_view()[j].0 == #[trigger] names.deep_view()[m].0,
            unique_keys(doc.deep_view()) ==> unique_keys(names.deep_view()),
            names_are_strings(kind, doc.deep_view().take(i as int)),
            names.deep_view() == names_of(kind, doc.deep_view().take(i as int)),
        decreases doc@.len() - i,
    {
        let ghost dv = doc.deep_view();
        assert(dv.take(i + 1).drop_last() =~= dv.take(i as int));
        assert(dv.take(i + 1).last() == dv[i as int]);
        if !is_typed(kind, &doc[i].0) {
            match &doc[i].1 {
                Field::Str(s) => {
                    let ghost before = names.deep_view();
                    names.push((doc[i].0.clone(), s.clone()));
                    assert(names.deep_view() =~= names_of(kind, dv.take(i + 1)));
                    assert(names.deep_view() =~= before.push((dv[i as int].0, s@)));
                    assert forall|m: int| 0 <= m < names@.len() implies exists|j: int| 0 <= j < i + 1 && dv[j].0 == #[trigger] names.deep_view()[m].0 by {
                        if m < before.len() {
                            assert(names.deep_view()[m] == before[m]);
                        } else {
                            assert(dv[i as int].0 == names.deep_view()[m].0);
                        }
                    }
                    proof {
                        if unique_keys(dv) {
                            assert forall|a: int, b: int| 0 <= a < b < names.deep_view().len() implies
                                names.deep_view()[a].0 != names.deep_view()[b].0 by {
                                if b == before.len() {
                                    assert(names.deep_view()[a] == before[a]);
                                    let j = choose|j: int| 0 <= j < i && dv[j].0 == #[trigger] before[a].0;
                                    assert(dv[j].0 != dv[i as int].0);
                                } else {
                                    assert(names.deep_view()[a] == before[a]);
                                    assert(names.deep_view()[b] == before[b]);
                                }
                            }
                        }
                    }
                },
                _ => {
                    assert(!names_are_strings(kind, dv)) by {
                        assert(!is_typed_field(kind, dv[i as int].0));
                    }
                    return None;
                },
            }
        } else {
            assert(names.deep_view() =~= names_of(kind, dv.take(i + 1)));
        }
        assert forall|j: int| 0 <= j < i + 1 && !is_typed_field(kind, #[trigger] dv.take(i + 1)[j].0)
            implies dv.take(i + 1)[j].1 is Str by {
            if j < i {
                assert(dv.take(i as int)[j] == dv.take(i + 1)[j]);
            }
        }
        i += 1;
    }
    assert(doc.deep_view().take(doc@.len() as int) =~= doc.deep_view());
    Some(names)
}

/// Detail of the error for a document of `kind` whose field `key` is missing or invalid.
pub open spec fn invalid_field_message(kind: EntityKind, key: Seq<char>) -> Seq<char> {
    "Elasticsearch error: "@ + entity_name(kind) + " document has a missing or invalid field: "@ + key
}

/// The first field, in decoding order, that keeps a document from decoding to a City.
pub open spec fn city_invalid_field(doc: DocView) -> Seq<char> {
    if !required_uint(doc, "id"@) {
        "id"@
    } else if !required_uint(doc, "regionId"@) {
        "regionId"@
    } else if !(field_of(doc, "isFeatured"@) is None || field_of(doc, "isFeatured"@) matches Some(FieldView::Bool(_))) {
        "isFeatured"@
    } else if !required_str(doc, "countryIso"@) {
        "countryIso"@
    } else if !(field_of(doc, "population"@) is None
        || (field_of(doc, "population"@) matches Some(FieldView::UInt(n)) && n <= u32::MAX)) {
        "population"@
    } else if !required_str(doc, "timezone"@) {
        "timezone"@
    } else {
        "names"@
    }
}

/// The first field, in decoding order, that keeps a document from decoding to a Region.
pub open spec fn region_invalid_field(doc: DocView) -> Seq<char> {
    if !required_uint(doc, "id"@) {
        "id"@
    } else if !required_str(doc, "countryIso"@) {
        "countryIso"@
    } else {
        "names"@
    }
}

fn invalid_field(kind: EntityKind, key: &str) -> (r: ErrorResponse)
    ensures
        r@ == ErrorView::InternalServerError(invalid_field_message(kind, key@)),
{
    let mut m = String::from_str("Elasticsearch error: ");
    m.append(kind.entity().as_str());
    m.append(" document has a missing or invalid field: ");
    m.append(key);
    assert(m@ =~= invalid_field_message(kind, key@));
    ErrorResponse::InternalServerError(m)
}

impl City {
    /// Decodes a stored City document.
    pub fn from_document(doc: &Document) -> (r: Result<City, ErrorResponse>)
        ensures
            r is Ok <==> city_decodes(doc.deep_view()),
            r matches Ok(c) ==> c@ == city_of(doc.deep_view()),
            r matches Ok(c) ==> (unique_keys(doc.deep_view()) ==> unique_keys(c@.names)),
            r matches Err(e) ==> e@ == ErrorView::InternalServerError(
                invalid_field_message(EntityKind::City, city_invalid_field(doc.deep_view())),
            ),
    {
        let id = match find_field(doc, "id") {
            Some(Field::UInt(n)) => *n,
            _ => return Err(invalid_field(EntityKind::City, "id")),
        };
        let region_id = match find_field(doc, "regionId") {
            Some(Field::UInt(n)) => *n,
            _ => return Err(invalid_field(EntityKind::City, "regionId")),
        };
        let is_featured = match find_field(doc, "isFeatured") {
            None => false,
            Some(Field::Bool(b)) => *b,
            _ => return Err(invalid_field(EntityKind::City, "isFeatured")),
        };
        let country_iso = match find_field(doc, "countryIso") {
            Some(Field::Str(s)) => s.clone(),
            _ => return Err(invalid_field(EntityKind::City, "countryIso")),
        };
        let population = match find_field(doc, "population") {
            None => None,
            Some(Field::UInt(n)) if *n <= u32::MAX as u64 => Some(*n as u32),
            _ => return Err(invalid_field(EntityKind::City, "population")),
        };
        let timezone = match find_field(doc, "timezone") {
            Some(Field::Str(s)) => s.clone(),
            _ => return Err(invalid_field(EntityKind::City, "timezone")),
        };
        let names = match document_names(EntityKind::City, doc) {
            Some(n) => n,
            None => return Err(invalid_field(EntityKind::City, "names")),
        };
        Ok(City { id, region_id, is_featured, country_iso, population, timezone, names })
    }
}

impl City {
    /// A copy of this City.
    pub fn duplicate(&self) -> (r: City)
        ensures
            r@ == self@,
    {
        City {
            id: self.id,
            region_id: self.region_id,
            is_featured: self.is_featured,
            country_iso: self.country_iso.clone(),
            population: self.population,
            timezone: self.timezone.clone(),
            names: copy_names(&self.names),
        }
    }
}

impl Region {
    /// Decodes a stored Region document.
    pub fn from_document(doc: &Document) -> (r: Result<Region, ErrorResponse>)
        ensures
            r is Ok <==> region_decodes(doc.deep_view()),
            r matches Ok(g) ==> g@ == region_of(doc.deep_view()),
            r matches Ok(g) ==> (unique_keys(doc.deep_view()) ==> unique_keys(g@.names)),
            r matches Err(e) ==> e@ == ErrorView::InternalServerError(
                invalid_field_message(EntityKind::Region, region_invalid_field(doc.deep_view())),
            ),
    {
        let id = match find_field(doc, "id") {
            Some(Field::UInt(n)) => *n,
            _ => return Err(invalid_field(EntityKind::Region, "id")),
        };
        let country_iso = match find_field(doc, "countryIso") {
            Some(Field::Str(s)) => s.clone(),
            _ => return Err(invalid_field(EntityKind::Region, "countryIso")),
        };
        let names = match document_names(EntityKind::Region, doc) {
            Some(n) => n,
            None => return Err(invalid_field(EntityKind::Region, "names")),
        };
        Ok(Region { id, country_iso, names })
    }

    /// A copy of this Region.
    pub fn duplicate(&self) -> (r: Region)
        ensures
            r@ == self@,
    {
        Region { id: self.id, country_iso: self.country_iso.clone(), names: copy_names(&self.names) }
    }
}

/// A copy of a list of names.
pub fn copy_names(names: &Names) -> (r: Names)
    ensures
        r.deep_view() == names.deep_view(),
{
    let mut r: Names = Vec::new();
    let mut i: usize = 0;
    while i < names.len()
        invariant
            i <= names@.len(),
            r@.len() == i,
            r.deep_view() == names.deep_view().take(i as int),
        decreases names@.len() - i,
    {
        let k = names[i].0.clone();
        let v = names[i].1.clone();
        r.push((k, v));
        assert(r.deep_view() =~= names.deep_view().take(i + 1));
        i += 1;
    }
    assert(names.deep_view().take(names@.len() as int) =~= names.deep_view());
    r
}

} // verus!
