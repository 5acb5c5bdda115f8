//! Domain values: languages, coordinates, errors, and the City and Region entities.

use vstd::prelude::*;

verus! {

/// Language for response localization, a two-letter ISO 639-1 code.
#[derive(Clone, Copy, Debug, PartialEq, Eq, Structural)]
pub enum Language {
    CS,
    DE,
    EN,
    PL,
    SK,
}

/// The lowercase two-letter code of a language.
pub open spec fn language_code(l: Language) -> Seq<char> {
    match l {
        Language::CS => seq!['c', 's'],
        Language::DE => seq!['d', 'e'],
        Language::EN => seq!['e', 'n'],
        Language::PL => seq!['p', 'l'],
        Language::SK => seq!['s', 'k'],
    }
}

/// The key under which an entity's name in language `l` is stored: `name.<code>`.
pub open spec fn name_key_of(l: Language) -> Seq<char> {
    seq!['n', 'a', 'm', 'e', '.'] + language_code(l)
}

impl Language {
    /// Key of the localized name field for this language, e.g. `name.cs`.
    pub fn name_key(self) -> (r: String)
        ensures
            r@ == name_key_of(self),
    {
        let r = match self {
            Language::CS => {
                proof { reveal_strlit("name.cs"); }
                String::from_str("name.cs")
            },
            Language::DE => {
                proof { reveal_strlit("name.de"); }
                String::from_str("name.de")
            },
            Language::EN => {
                proof { reveal_strlit("name.en"); }
                String::from_str("name.en")
            },
            Language::PL => {
                proof { reveal_strlit("name.pl"); }
                String::from_str("name.pl")
            },
            Language::SK => {
                proof { reveal_strlit("name.sk"); }
                String::from_str("name.sk")
            },
        };
        assert(r@ =~= name_key_of(self));
        r
    }
}

/// An error outcome handed to the caller.
#[derive(Debug)]
pub enum ErrorResponse {
    /// The caller sent something wrong, or a requested localization is missing.
    BadRequest(String),
    /// The requested entity does not exist.
    NotFound(String),
    /// The backing store failed, or an invariant of its answers was broken.
    InternalServerError(String),
}

/// The mathematical value of an [`ErrorResponse`].
pub enum ErrorView {
    BadRequest(Seq<char>),
    NotFound(Seq<char>),
    InternalServerError(Seq<char>),
}

impl View for ErrorResponse {
    type V = ErrorView;

    open spec fn view(&self) -> ErrorView {
        match self {
            ErrorResponse::BadRequest(m) => ErrorView::BadRequest(m@),
            ErrorResponse::NotFound(m) => ErrorView::NotFound(m@),
            ErrorResponse::InternalServerError(m) => ErrorView::InternalServerError(m@),
        }
    }
}

impl ErrorResponse {
    /// A copy of this outcome.
    pub fn duplicate(&self) -> (r: ErrorResponse)
        ensures
            r@ == self@,
    {
        match self {
            ErrorResponse::BadRequest(m) => ErrorResponse::BadRequest(m.clone()),
            ErrorResponse::NotFound(m) => ErrorResponse::NotFound(m.clone()),
            ErrorResponse::InternalServerError(m) => ErrorResponse::InternalServerError(m.clone()),
        }
    }

    /// HTTP status code of this outcome.
    pub fn status_code(&self) -> (r: u16)
        ensures
            self is BadRequest ==> r == 400,
            self is NotFound ==> r == 404,
            self is InternalServerError ==> r == 500,
    {
        match self {
            ErrorResponse::BadRequest(_) => 400,
            ErrorResponse::NotFound(_) => 404,
            ErrorResponse::InternalServerError(_) => 500,
        }
    }

    /// Human-readable message: the kind of outcome followed by its detail.
    pub fn message(&self) -> (r: String)
        ensures
            r@ == error_message(self),
    {
        let (mut r, detail) = match self {
            ErrorResponse::BadRequest(m) => {
                proof { reveal_strlit("Bad Request: "); }
                (String::from_str("Bad Request: "), m)
            },
            ErrorResponse::NotFound(m) => {
                proof { reveal_strlit("Not Found: "); }
                (String::from_str("Not Found: "), m)
            },
            ErrorResponse::InternalServerError(m) => {
                proof { reveal_strlit("Internal Server Error: "); }
                (String::from_str("Internal Server Error: "), m)
            },
        };
        r.append(detail.as_str());
        r
    }
}

/// The message of an error outcome.
pub open spec fn error_message(e: &ErrorResponse) -> Seq<char> {
    match e {
        ErrorResponse::BadRequest(m) => "Bad Request: "@ + m@,
        ErrorResponse::NotFound(m) => "Not Found: "@ + m@,
        ErrorResponse::InternalServerError(m) => "Internal Server Error: "@ + m@,
    }
}

/// A geo point. Latitude and longitude are in millionths of a decimal degree.
#[derive(Clone, Copy, Debug, PartialEq, Eq, Structural)]
pub struct Coordinates {
    pub lat: i64,
    pub lon: i64,
}

/// Largest latitude, in millionths of a degree.
pub const MAX_LAT: i64 = 90_000_000;

/// Largest longitude, in millionths of a degree.
pub const MAX_LON: i64 = 180_000_000;

impl Coordinates {
    /// Latitude within [-90, 90] and longitude within [-180, 180] degrees.
    pub open spec fn in_range(self) -> bool {
        -MAX_LAT <= self.lat <= MAX_LAT && -MAX_LON <= self.lon <= MAX_LON
    }

    /// The error for a point out of range: the latitude is checked first.
    pub open spec fn range_error(self) -> ErrorView {
        if !(-MAX_LAT <= self.lat <= MAX_LAT) {
            ErrorView::BadRequest("lat: must be within [-90, 90]"@)
        } else {
            ErrorView::BadRequest("lon: must be within [-180, 180]"@)
        }
    }

    /// Checks the ranges of a caller-supplied point.
    pub fn validate(&self) -> (r: Result<(), ErrorResponse>)
        ensures
            r is Ok <==> self.in_range(),
            r matches Err(e) ==> e@ == self.range_error(),
    {
        if self.lat < -MAX_LAT || self.lat > MAX_LAT {
            Err(ErrorResponse::BadRequest(String::from_str("lat: must be within [-90, 90]")))
        } else if self.lon < -MAX_LON || self.lon > MAX_LON {
            Err(ErrorResponse::BadRequest(String::from_str("lon: must be within [-180, 180]")))
        } else {
            Ok(())
        }
    }
}

/// Localized names as (key, name) pairs. Decoding keeps the keys unique wherever the stored
/// document's field names are, as those of a JSON object are.
pub type Names = Vec<(String, String)>;

/// The name stored under `key`: the first pair whose key matches.
pub open spec fn lookup(names: Seq<(Seq<char>, Seq<char>)>, key: Seq<char>) -> Option<Seq<char>>
    decreases names.len(),
{
    if names.len() == 0 {
        None
    } else if names[0].0 == key {
        Some(names[0].1)
    } else {
        lookup(names.drop_first(), key)
    }
}

/// Looks up the name stored under `key`.
pub fn lookup_name(names: &Names, key: &String) -> (r: Option<String>)
    ensures
        match r {
            Some(n) => lookup(names.deep_view(), key@) == Some(n@),
            None => lookup(names.deep_view(), key@) is None,
        },
{
    let mut i: usize = 0;
    assert(names.deep_view().skip(0) =~= names.deep_view());
    while i < names.len()
        invariant
            i <= names@.len(),
            lookup(names.deep_view(), key@) == lookup(names.deep_view().skip(i as int), key@),
        decreases names@.len() - i,
    {
        assert(names.deep_view().skip(i as int).drop_first() =~= names.deep_view().skip(i + 1));
        if names[i].0 == *key {
            return Some(names[i].1.clone());
        }
        i += 1;
    }
    None
}

} // verus!
