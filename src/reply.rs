//! Reading the coordinates out of the geocoding service's reply.
use vstd::prelude::*;

verus! {

#[verifier::external_type_specification]
#[verifier::external_body]
pub struct ExJsonValue(serde_json::Value);

/// A JSON value as the library reads it: numbers keep their text, objects
/// their members as name and value.
#[derive(Debug)]
pub enum Json {
    Null,
    Bool(bool),
    Number(String),
    Str(String),
    Array(Vec<Json>),
    Object(Vec<(String, Json)>),
}

/// Whether a text is one well-formed JSON value, as serde_json reads it.
pub uninterp spec fn is_json_text(s: Seq<char>) -> bool;

/// The value that serde_json reads from a well-formed JSON text.
pub uninterp spec fn json_of(s: Seq<char>) -> Json;

/// Relies on serde_json::from_str into a `Value`: it fails exactly where the
/// text is not one well-formed JSON value, and the value read depends on the
/// text alone.
#[verifier::external_body]
fn parse_json(text: &str) -> (r: Option<Json>)
    ensures
        r is Some <==> is_json_text(text@),
        r matches Some(j) ==> j == json_of(text@),
{
    match serde_json::from_str::<serde_json::Value>(text) {
        Ok(v) => Some(json_from_value(v)),
        Err(_) => None,
    }
}

/// Moves a serde_json `Value` into `Json`, variant for variant; a number
/// keeps the text that serde_json's `Display` gives it. Its result is what
/// `parse_json` states.
#[verifier::external_body]
fn json_from_value(v: serde_json::Value) -> Json {
    match v {
        serde_json::Value::Null => Json::Null,
        serde_json::Value::Bool(b) => Json::Bool(b),
        serde_json::Value::Number(n) => Json::Number(n.to_string()),
        serde_json::Value::String(s) => Json::Str(s),
        serde_json::Value::Array(a) => Json::Array(a.into_iter().map(json_from_value).collect()),
        serde_json::Value::Object(o) => Json::Object(
            o.into_iter().map(|(k, x)| (k, json_from_value(x))).collect(),
        ),
    }
}

/// The value of the first member named `key`.
pub open spec fn member_of(entries: Seq<(String, Json)>, key: Seq<char>) -> Option<Json>
    decreases entries.len(),
{
    if entries.len() == 0 {
        None
    } else if entries[0].0@ == key {
        Some(entries[0].1)
    } else {
        member_of(entries.drop_first(), key)
    }
}

/// The text of the member `key` of the first element of an array, where
/// that member is a string.
pub open spec fn first_member_str(j: Json, key: Seq<char>) -> Option<Seq<char>> {
    match j {
        Json::Array(items) => if items@.len() > 0 {
            match items@[0] {
                Json::Object(entries) => match member_of(entries@, key) {
                    Some(Json::Str(s)) => Some(s@),
                    _ => None,
                },
                _ => None,
            }
        } else {
            None
        },
        _ => None,
    }
}

/// The text of an optional string.
pub open spec fn opt_text(f: Option<String>) -> Option<Seq<char>> {
    match f {
        Some(s) => Some(s@),
        None => None,
    }
}

/// A text, or the empty text where there is none.
pub open spec fn or_empty(t: Option<Seq<char>>) -> Seq<char> {
    match t {
        Some(s) => s,
        None => Seq::empty(),
    }
}

/// The coordinate `key` of a reply text: the string member `key` of its
/// first result, where the text is JSON and has one.
pub open spec fn reply_field(text: Seq<char>, key: Seq<char>) -> Option<Seq<char>> {
    if is_json_text(text) {
        first_member_str(json_of(text), key)
    } else {
        None
    }
}

fn lookup_member<'a>(entries: &'a Vec<(String, Json)>, key: &String) -> (r: Option<&'a Json>)
    ensures
        match r {
            Some(v) => member_of(entries@, key@) == Some(*v),
            None => member_of(entries@, key@) is None,
        },
{
    let mut i: usize = 0;
    assert(entries@.subrange(0, entries@.len() as int) =~= entries@);
    while i < entries.len()
        invariant
            i <= entries@.len(),
            member_of(entries@, key@) == member_of(entries@.subrange(i as int, entries@.len() as int), key@),
        decreases entries@.len() - i,
    {
        let ghost rest = entries@.subrange(i as int, entries@.len() as int);
        assert(rest.drop_first() =~= entries@.subrange(i + 1, entries@.len() as int));
        if entries[i].0 == *key {
            return Some(&entries[i].1);
        }
        i = i + 1;
    }
    None
}

fn member_str(entries: &Vec<(String, Json)>, key: &String) -> (r: Option<String>)
    ensures
        opt_text(r) == match member_of(entries@, key@) {
            Some(Json::Str(s)) => Some(s@),
            _ => None::<Seq<char>>,
        },
{
    match lookup_member(entries, key) {
        Some(Json::Str(s)) => Some(s.clone()),
        _ => None,
    }
}

/// The coordinate fields of the first result of a reply, where they are
/// strings.
#[derive(Clone, Debug)]
pub struct ReplyFields {
    pub lat: Option<String>,
    pub lon: Option<String>,
}

/// The coordinates written into a row.
#[derive(Clone, Debug)]
pub struct Coordinates {
    pub lat: String,
    pub lng: String,
}

/// The text of an optional field, empty where it is absent.
pub open spec fn text_or_empty(f: Option<String>) -> Seq<char> {
    match f {
        Some(s) => s@,
        None => Seq::empty(),
    }
}

/// The coordinate fields of a parsed reply: `lat` and `lon` of its first
/// element, where the reply is an array, that element an object and the
/// members strings.
pub fn reply_fields(j: &Json) -> (r: ReplyFields)
    ensures
        opt_text(r.lat) == first_member_str(*j, "lat"@),
        opt_text(r.lon) == first_member_str(*j, "lon"@),
{
    let lat_key = String::from_str("lat");
    let lon_key = String::from_str("lon");
    proof {
        reveal_strlit("lat");
        reveal_strlit("lon");
    }
    match j {
        Json::Array(items) => {
            if items.len() > 0 {
                match &items[0] {
                    Json::Object(entries) => ReplyFields {
                        lat: member_str(entries, &lat_key),
                        lon: member_str(entries, &lon_key),
                    },
                    _ => ReplyFields { lat: None, lon: None },
                }
            } else {
                ReplyFields { lat: None, lon: None }
            }
        },
        _ => ReplyFields { lat: None, lon: None },
    }
}

/// Reads `lat` and `lon` of the first result of a reply text. A reply that
/// is no JSON text gives neither.
pub fn read_reply(text: &str) -> (r: ReplyFields)
    ensures
        opt_text(r.lat) == reply_field(text@, "lat"@),
        opt_text(r.lon) == reply_field(text@, "lon"@),
{
    match parse_json(text) {
        Some(j) => reply_fields(&j),
        None => ReplyFields { lat: None, lon: None },
    }
}

/// The coordinates of a reply's fields: each absent field becomes empty.
pub fn coordinates_of(fields: &ReplyFields) -> (r: Coordinates)
    ensures
        r.lat@ == text_or_empty(fields.lat),
        r.lng@ == text_or_empty(fields.lon),
{
    let lat = match &fields.lat {
        Some(s) => s.clone(),
        None => String::new(),
    };
    let lng = match &fields.lon {
        Some(s) => s.clone(),
        None => String::new(),
    };
    Coordinates { lat, lng }
}

/// The coordinates in a reply text; both are empty where the text is no
/// JSON, so that a malformed reply never stops a run.
pub fn reply_coordinates(text: &str) -> (r: Coordinates)
    ensures
        r.lat@ == or_empty(reply_field(text@, "lat"@)),
        r.lng@ == or_empty(reply_field(text@, "lon"@)),
        !is_json_text(text@) ==> r.lat@.len() == 0 && r.lng@.len() == 0,
{
    let fields = read_reply(text);
    coordinates_of(&fields)
}

impl Coordinates {
    /// No coordinates at all were found: both are empty.
    pub fn is_missing(&self) -> (r: bool)
        ensures
            r == (self.lat@.len() == 0 && self.lng@.len() == 0),
    {
        self.lat.as_str().is_empty() && self.lng.as_str().is_empty()
    }
}

} // verus!
