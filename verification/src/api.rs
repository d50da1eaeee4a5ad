//! The title payload model, the typed failures of a lookup, and the pure
//! halves of the lookup itself: building the query URL and interpreting
//! the reply payload.

use crate::catalog::FieldKey;
use crate::text::dec_spec;
use crate::text::digit_char;
use crate::text::u64_dec;
use vstd::prelude::*;
use vstd::string::StringSliceAdditionalSpecFns;

verus! {

/// One successful lookup payload: every wire field the catalog can show,
/// `None` standing for a field the catalog did not carry (absent or sent
/// as the unknown sentinel).
#[derive(Debug, Clone, PartialEq, Eq)]
pub struct TitleData {
    pub title: Option<String>,
    pub director: Option<String>,
    pub year: Option<String>,
    pub runtime: Option<String>,
    pub genre: Option<String>,
    pub writer: Option<String>,
    pub released: Option<String>,
    pub actors: Option<String>,
    pub language: Option<String>,
    pub country: Option<String>,
    pub metascore: Option<String>,
    pub imdb_rating: Option<String>,
    pub imdb_id: Option<String>,
    pub box_office: Option<String>,
    pub rated: Option<String>,
    pub awards: Option<String>,
    pub plot: Option<String>,
}

impl TitleData {
    /// A payload with every field unknown.
    pub fn empty() -> (r: TitleData)
        ensures
            forall|k: FieldKey| spec_field(r, k) is None,
            r.imdb_id is None,
    {
        TitleData {
            title: None,
            director: None,
            year: None,
            runtime: None,
            genre: None,
            writer: None,
            released: None,
            actors: None,
            language: None,
            country: None,
            metascore: None,
            imdb_rating: None,
            imdb_id: None,
            box_office: None,
            rated: None,
            awards: None,
            plot: None,
        }
    }
}

/// The field of the payload that a catalog key shows.
pub open spec fn spec_field(d: TitleData, k: FieldKey) -> Option<String> {
    match k {
        FieldKey::Title => d.title,
        FieldKey::Director => d.director,
        FieldKey::Year => d.year,
        FieldKey::Runtime => d.runtime,
        FieldKey::Genre => d.genre,
        FieldKey::Writer => d.writer,
        FieldKey::Released => d.released,
        FieldKey::Actors => d.actors,
        FieldKey::Language => d.language,
        FieldKey::Country => d.country,
        FieldKey::Metascore => d.metascore,
        FieldKey::ImdbRating => d.imdb_rating,
        FieldKey::BoxOffice => d.box_office,
        FieldKey::Rated => d.rated,
        FieldKey::Awards => d.awards,
        FieldKey::Plot => d.plot,
    }
}

fn clone_opt(o: &Option<String>) -> (r: Option<String>)
    ensures
        r == *o,
{
    match o {
        Some(s) => Some(s.clone()),
        None => None,
    }
}

/// Reads the payload field a catalog key shows.
pub fn value_of(d: &TitleData, k: FieldKey) -> (r: Option<String>)
    ensures
        r == spec_field(*d, k),
{
    match k {
        FieldKey::Title => clone_opt(&d.title),
        FieldKey::Director => clone_opt(&d.director),
        FieldKey::Year => clone_opt(&d.year),
        FieldKey::Runtime => clone_opt(&d.runtime),
        FieldKey::Genre => clone_opt(&d.genre),
        FieldKey::Writer => clone_opt(&d.writer),
        FieldKey::Released => clone_opt(&d.released),
        FieldKey::Actors => clone_opt(&d.actors),
        FieldKey::Language => clone_opt(&d.language),
        FieldKey::Country => clone_opt(&d.country),
        FieldKey::Metascore => clone_opt(&d.metascore),
        FieldKey::ImdbRating => clone_opt(&d.imdb_rating),
        FieldKey::BoxOffice => clone_opt(&d.box_office),
        FieldKey::Rated => clone_opt(&d.rated),
        FieldKey::Awards => clone_opt(&d.awards),
        FieldKey::Plot => clone_opt(&d.plot),
    }
}

/// A failed lookup. `NotFound` carries the catalog's own reason verbatim;
/// the others describe the transport or the payload shape.
#[derive(Debug, Clone, PartialEq, Eq)]
pub enum TitleError {
    /// The transport could not complete the exchange.
    Network(String),
    /// The response carried a non-success status code.
    HttpStatus(u16),
    /// The body could not be parsed as a payload.
    Decode,
    /// A well-formed negative reply, with the reason it gave.
    NotFound(String),
}

impl TitleError {
    /// The text reported on the error channel. A `NotFound` reason is
    /// passed through verbatim.
    pub fn message(&self) -> (r: String)
        ensures
            match *self {
                TitleError::Network(ref m) => r@ == "Request error: "@ + m@,
                TitleError::HttpStatus(code) => r@ == "HTTP status "@ + dec_spec(code as nat),
                TitleError::Decode => r@ == "Malformed response payload"@,
                TitleError::NotFound(ref m) => r@ == m@,
            },
    {
        match self {
            TitleError::Network(m) => {
                let mut s = String::from_str("Request error: ");
                s.append(m.as_str());
                s
            },
            TitleError::HttpStatus(code) => {
                let mut s = String::from_str("HTTP status ");
                let n = u64_dec(*code as u64);
                s.append(n.as_str());
                s
            },
            TitleError::Decode => String::from_str("Malformed response payload"),
            TitleError::NotFound(m) => m.clone(),
        }
    }
}

/// Joins the outcomes of the two concurrent lookups of comparison mode:
/// the pair when both succeeded, else the first failure in input order.
/// Either side failing forfeits the whole comparison.
pub fn combine_fetches(a: Result<TitleData, TitleError>, b: Result<TitleData, TitleError>) -> (r:
    Result<(TitleData, TitleData), TitleError>)
    ensures
        match (a, b) {
            (Ok(da), Ok(db)) => r == Ok::<(TitleData, TitleData), TitleError>((da, db)),
            (Err(ea), _) => r == Err::<(TitleData, TitleData), TitleError>(ea),
            (Ok(_), Err(eb)) => r == Err::<(TitleData, TitleData), TitleError>(eb),
        },
{
    match (a, b) {
        (Ok(da), Ok(db)) => Ok((da, db)),
        (Err(ea), _) => Err(ea),
        (Ok(_), Err(eb)) => Err(eb),
    }
}

/// An uppercase hexadecimal digit character.
pub open spec fn hex_char(d: nat) -> char {
    if d < 10 {
        digit_char(d)
    } else if d == 10 {
        'A'
    } else if d == 11 {
        'B'
    } else if d == 12 {
        'C'
    } else if d == 13 {
        'D'
    } else if d == 14 {
        'E'
    } else {
        'F'
    }
}

/// An ASCII letter or digit byte.
pub open spec fn is_alnum_byte(b: u8) -> bool {
    (48 <= b <= 57) || (65 <= b <= 90) || (97 <= b <= 122)
}

/// The transport encoding of one byte: ASCII letters and digits pass
/// through, every other byte becomes `%XX` in uppercase hex.
pub open spec fn pe_byte(b: u8) -> Seq<char> {
    if is_alnum_byte(b) {
        seq![b as char]
    } else {
        seq!['%', hex_char((b / 16) as nat), hex_char((b % 16) as nat)]
    }
}

/// The transport encoding of a byte string, byte by byte in order.
pub open spec fn pe_bytes(bs: Seq<u8>) -> Seq<char>
    decreases bs.len(),
{
    if bs.len() == 0 {
        Seq::empty()
    } else {
        pe_byte(bs[0]) + pe_bytes(bs.skip(1))
    }
}

/// Relies on percent_encoding::utf8_percent_encode with NON_ALPHANUMERIC:
/// every byte of the UTF-8 text that is not an ASCII letter or digit is
/// written as `%XX` with uppercase hex digits, and ASCII letters and
/// digits pass through unchanged, in input order.
#[verifier::external_body]
fn percent_encode_all(s: &str) -> (r: String)
    ensures
        r@ == pe_bytes(s.spec_bytes()),
{
    percent_encoding::utf8_percent_encode(s, percent_encoding::NON_ALPHANUMERIC).to_string()
}

/// The full query URL for one title lookup.
pub open spec fn url_spec(key: Seq<char>, title_bytes: Seq<u8>, year: Option<u16>) -> Seq<char> {
    "https://www.omdbapi.com/?apikey="@ + key + "&t="@ + pe_bytes(title_bytes) + (match year {
        Some(y) => "&y="@ + dec_spec(y as nat),
        None => Seq::empty(),
    })
}

/// Builds the lookup URL: the catalog endpoint, the key, the
/// percent-encoded title, and the year when one applies.
pub fn build_url(key: &str, title: &str, year: Option<u16>) -> (r: String)
    ensures
        r@ == url_spec(key@, title.spec_bytes(), year),
{
    let mut url = String::from_str("https://www.omdbapi.com/?apikey=");
    url.append(key);
    url.append("&t=");
    let enc = percent_encode_all(title);
    url.append(enc.as_str());
    match year {
        Some(y) => {
            url.append("&y=");
            let ys = u64_dec(y as u64);
            url.append(ys.as_str());
        },
        None => {},
    }
    proof {
        assert(url@ =~= url_spec(key@, title.spec_bytes(), year));
    }
    url
}

/// The top-level string-valued fields of the JSON object a text parses
/// to, or nothing when the text is not a JSON object.
pub uninterp spec fn json_obj(s: Seq<char>) -> Option<Map<Seq<char>, Seq<char>>>;

/// Relies on serde_json::from_str, serde_json's Value variants, and
/// serde_json::Map::get: `json_obj` names the body's top-level
/// string-valued fields, and the call hands out the one under `key`.
/// The outer option is the body parsing as a JSON object at all, the
/// inner one the field being present with a string value.
#[verifier::external_body]
fn json_str_field(body: &str, key: &str) -> (r: Option<Option<String>>)
    ensures
        r is Some <==> json_obj(body@) is Some,
        r is Some ==> (match json_obj(body@) {
            Some(m) => {
                &&& (m.contains_key(key@) <==> r.unwrap() is Some)
                &&& (r.unwrap() is Some ==> r.unwrap().unwrap()@ == m[key@])
            },
            None => false,
        }),
{
    match serde_json::from_str::<serde_json::Value>(body) {
        Ok(serde_json::Value::Object(map)) => match map.get(key) {
            Some(serde_json::Value::String(s)) => Some(Some(s.clone())),
            _ => Some(None),
        },
        _ => None,
    }
}

/// A field's display value after the wire conventions: absent, or sent as
/// the unknown sentinel, means unknown.
pub open spec fn norm_field(m: Map<Seq<char>, Seq<char>>, key: Seq<char>) -> Option<Seq<char>> {
    if m.contains_key(key) && m[key] != "N/A"@ {
        Some(m[key])
    } else {
        None
    }
}

/// An optional string with the given optional view.
pub open spec fn opt_match(v: Option<String>, w: Option<Seq<char>>) -> bool {
    match (v, w) {
        (Some(s), Some(t)) => s@ == t,
        (None, None) => true,
        _ => false,
    }
}

/// Every payload field carries the normalized wire field of its name.
pub open spec fn payload_matches(d: TitleData, m: Map<Seq<char>, Seq<char>>) -> bool {
    &&& opt_match(d.title, norm_field(m, "Title"@))
    &&& opt_match(d.director, norm_field(m, "Director"@))
    &&& opt_match(d.year, norm_field(m, "Year"@))
    &&& opt_match(d.runtime, norm_field(m, "Runtime"@))
    &&& opt_match(d.genre, norm_field(m, "Genre"@))
    &&& opt_match(d.writer, norm_field(m, "Writer"@))
    &&& opt_match(d.released, norm_field(m, "Released"@))
    &&& opt_match(d.actors, norm_field(m, "Actors"@))
    &&& opt_match(d.language, norm_field(m, "Language"@))
    &&& opt_match(d.country, norm_field(m, "Country"@))
    &&& opt_match(d.metascore, norm_field(m, "Metascore"@))
    &&& opt_match(d.imdb_rating, norm_field(m, "imdbRating"@))
    &&& opt_match(d.imdb_id, norm_field(m, "imdbID"@))
    &&& opt_match(d.box_office, norm_field(m, "BoxOffice"@))
    &&& opt_match(d.rated, norm_field(m, "Rated"@))
    &&& opt_match(d.awards, norm_field(m, "Awards"@))
    &&& opt_match(d.plot, norm_field(m, "Plot"@))
}

/// A well-formed reply that marks itself negative.
pub open spec fn is_negative(m: Map<Seq<char>, Seq<char>>) -> bool {
    m.contains_key("Response"@) && m["Response"@] == "False"@
}

/// The reason a negative reply gives, verbatim; a fallback when it gives
/// none.
pub open spec fn negative_reason(m: Map<Seq<char>, Seq<char>>) -> Seq<char> {
    if m.contains_key("Error"@) {
        m["Error"@]
    } else {
        "unknown reason"@
    }
}

fn norm_get(body: &str, key: &str) -> (r: Option<String>)
    requires
        json_obj(body@) is Some,
    ensures
        opt_match(r, norm_field(json_obj(body@).unwrap(), key@)),
{
    match json_str_field(body, key) {
        Some(Some(s)) => {
            let na = String::from_str("N/A");
            if s.eq(&na) {
                None
            } else {
                Some(s)
            }
        },
        Some(None) => None,
        None => {
            proof {
                assert(false);
            }
            None
        },
    }
}

/// Interprets a reply body. A body that is not a JSON object cannot be
/// decoded; an object marked negative is the catalog's own "not found"
/// with its reason verbatim; any other object is a successful payload
/// with absent or sentinel fields normalized to unknown.
pub fn parse_title_payload(body: &str) -> (r: Result<TitleData, TitleError>)
    ensures
        json_obj(body@) is None ==> r == Err::<TitleData, TitleError>(TitleError::Decode),
        json_obj(body@) is Some ==> ({
            let m = json_obj(body@).unwrap();
            if is_negative(m) {
                r matches Err(TitleError::NotFound(reason)) && reason@ == negative_reason(m)
            } else {
                r matches Ok(d) && payload_matches(d, m)
            }
        }),
{
    let resp = json_str_field(body, "Response");
    match resp {
        None => Err(TitleError::Decode),
        Some(resp_field) => {
            let negative = match &resp_field {
                Some(s) => {
                    let falsity = String::from_str("False");
                    s.eq(&falsity)
                },
                None => false,
            };
            if negative {
                let reason = match json_str_field(body, "Error") {
                    Some(Some(s)) => s,
                    Some(None) => String::from_str("unknown reason"),
                    None => {
                        proof {
                            assert(false);
                        }
                        String::new()
                    },
                };
                Err(TitleError::NotFound(reason))
            } else {
                let data = TitleData {
                    title: norm_get(body, "Title"),
                    director: norm_get(body, "Director"),
                    year: norm_get(body, "Year"),
                    runtime: norm_get(body, "Runtime"),
                    genre: norm_get(body, "Genre"),
                    writer: norm_get(body, "Writer"),
                    released: norm_get(body, "Released"),
                    actors: norm_get(body, "Actors"),
                    language: norm_get(body, "Language"),
                    country: norm_get(body, "Country"),
                    metascore: norm_get(body, "Metascore"),
                    imdb_rating: norm_get(body, "imdbRating"),
                    imdb_id: norm_get(body, "imdbID"),
                    box_office: norm_get(body, "BoxOffice"),
                    rated: norm_get(body, "Rated"),
                    awards: norm_get(body, "Awards"),
                    plot: norm_get(body, "Plot"),
                };
                Ok(data)
            }
        },
    }
}

} // verus!
