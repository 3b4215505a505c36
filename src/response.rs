//! The decoded status record, and its decoding from the stored payload.
use vstd::prelude::*;
use vstd::utf8::{decode_utf8, valid_utf8};
use crate::json::{
    i64_spec, json_model, member, member_spec, parse_value, parsed_json, str_spec, utf8_text,
    JsonModel,
};
use crate::status::{QueryState, ServerStatus, StatusError};

verus! {

/// One player of the sample a server lists.
#[derive(Debug)]
pub struct Sample {
    pub id: String,
    pub name: String,
}

/// The server's software version and protocol number.
#[derive(Debug)]
pub struct Version {
    pub name: String,
    pub protocol: i64,
}

/// Player counts, and a sample of the players online.
#[derive(Debug)]
pub struct Players {
    pub max: i64,
    pub online: i64,
    pub sample: Vec<Sample>,
}

/// The structured form of a server description: `{"text": ...}`.
#[derive(Debug)]
pub struct TextDescription {
    pub text: String,
}

/// A server description, in whichever of its two shapes the server sent.
#[derive(Debug)]
pub enum Description {
    TextDescription(TextDescription),
    RawDescription(String),
}

/// A server's decoded status.
#[derive(Debug)]
pub struct StatusResponse {
    pub description: Description,
    pub favicon: String,
    pub players: Players,
    pub version: Version,
}

/// The text of the string member `key`.
pub open spec fn str_member(m: JsonModel, key: Seq<char>) -> Option<Seq<char>> {
    match member_spec(m, key) {
        Some(v) => str_spec(v),
        None => None,
    }
}

/// The `i64` member `key`.
pub open spec fn i64_member(m: JsonModel, key: Seq<char>) -> Option<int> {
    match member_spec(m, key) {
        Some(v) => i64_spec(v),
        None => None,
    }
}

/// `s` is what `m` decodes to as a sample.
pub open spec fn sample_matches(s: Sample, m: JsonModel) -> bool {
    &&& str_member(m, "id"@) == Some(s.id@)
    &&& str_member(m, "name"@) == Some(s.name@)
}

/// `m` decodes as a sample.
pub open spec fn sample_ok(m: JsonModel) -> bool {
    &&& str_member(m, "id"@) is Some
    &&& str_member(m, "name"@) is Some
}

/// `v` is what `m` decodes to as a version.
pub open spec fn version_matches(v: Version, m: JsonModel) -> bool {
    &&& str_member(m, "name"@) == Some(v.name@)
    &&& i64_member(m, "protocol"@) == Some(v.protocol as int)
}

/// `m` decodes as a version.
pub open spec fn version_ok(m: JsonModel) -> bool {
    &&& str_member(m, "name"@) is Some
    &&& i64_member(m, "protocol"@) is Some
}

/// The elements that a `sample` member lists: none where it is absent.
pub open spec fn sample_elements(m: JsonModel) -> Option<Seq<JsonModel>> {
    match member_spec(m, "sample"@) {
        None => Some(Seq::empty()),
        Some(JsonModel::Array(a)) => Some(a),
        Some(_) => None,
    }
}

/// The elements of the `sample` member, empty where it is absent or no array.
pub open spec fn sample_list(m: JsonModel) -> Seq<JsonModel> {
    match sample_elements(m) {
        Some(a) => a,
        None => Seq::empty(),
    }
}

/// `p` is what `m` decodes to as player counts and sample.
pub open spec fn players_matches(p: Players, m: JsonModel) -> bool {
    &&& i64_member(m, "max"@) == Some(p.max as int)
    &&& i64_member(m, "online"@) == Some(p.online as int)
    &&& sample_elements(m) is Some
    &&& p.sample@.len() == sample_list(m).len()
    &&& forall|i: int|
        0 <= i < sample_list(m).len() ==> sample_matches(#[trigger] p.sample@[i], sample_list(m)[i])
}

/// `m` decodes as player counts and sample.
pub open spec fn players_ok(m: JsonModel) -> bool {
    &&& i64_member(m, "max"@) is Some
    &&& i64_member(m, "online"@) is Some
    &&& sample_elements(m) is Some
    &&& forall|i: int| 0 <= i < sample_list(m).len() ==> sample_ok(#[trigger] sample_list(m)[i])
}

/// `d` is what `m` decodes to as a description: the structured shape where
/// `m` is an object with a string `text`, else the raw shape where `m` is a
/// string.
pub open spec fn description_matches(d: Description, m: JsonModel) -> bool {
    match str_member(m, "text"@) {
        Some(t) => d matches Description::TextDescription(td) && td.text@ == t,
        None => d matches Description::RawDescription(s) && str_spec(m) == Some(s@),
    }
}

/// `m` decodes as a description, in one shape or the other.
pub open spec fn description_ok(m: JsonModel) -> bool {
    str_member(m, "text"@) is Some || str_spec(m) is Some
}

/// The text of the `favicon` member: empty where it is absent.
pub open spec fn favicon_spec(m: JsonModel) -> Option<Seq<char>> {
    match member_spec(m, "favicon"@) {
        None => Some(Seq::empty()),
        Some(f) => str_spec(f),
    }
}

/// `r` is what `m` decodes to as a status.
pub open spec fn status_matches(r: StatusResponse, m: JsonModel) -> bool {
    &&& member_spec(m, "description"@) matches Some(d) && description_matches(r.description, d)
    &&& favicon_spec(m) == Some(r.favicon@)
    &&& member_spec(m, "players"@) matches Some(p) && players_matches(r.players, p)
    &&& member_spec(m, "version"@) matches Some(v) && version_matches(r.version, v)
}

/// `m` decodes as a status.
pub open spec fn status_ok(m: JsonModel) -> bool {
    &&& member_spec(m, "description"@) matches Some(d) && description_ok(d)
    &&& favicon_spec(m) is Some
    &&& member_spec(m, "players"@) matches Some(p) && players_ok(p)
    &&& member_spec(m, "version"@) matches Some(v) && version_ok(v)
}

/// What decoding the payload `raw` gives: an error kind, or a status record
/// that `status_matches` the parsed JSON.
pub open spec fn decode_outcome(raw: Seq<u8>) -> Option<StatusError> {
    if !valid_utf8(raw) {
        Some(StatusError::InvalidUtf8)
    } else {
        match parsed_json(decode_utf8(raw)) {
            Some(m) => if status_ok(m) {
                None
            } else {
                Some(StatusError::JsonMalformed)
            },
            None => Some(StatusError::JsonMalformed),
        }
    }
}

/// A description that is a plain string decodes to the raw shape, and one
/// that is an object with a string `text` decodes to the structured shape;
/// both carry that text.
pub proof fn lemma_description_shapes(t: Seq<char>, o: Map<Seq<char>, JsonModel>)
    requires
        o.contains_key("text"@),
        o["text"@] == JsonModel::Str(t),
    ensures
        description_ok(JsonModel::Str(t)),
        description_ok(JsonModel::Object(o)),
        forall|d: Description| #[trigger]
            description_matches(d, JsonModel::Str(t)) ==> (d matches Description::RawDescription(
                s,
            ) && s@ == t),
        forall|d: Description| #[trigger]
            description_matches(d, JsonModel::Object(o)) ==> (
            d matches Description::TextDescription(td) && td.text@ == t),
{
}

/// Players without a `sample` member decode, and their sample is empty.
pub proof fn lemma_missing_sample(m: JsonModel)
    requires
        member_spec(m, "sample"@) is None,
        i64_member(m, "max"@) is Some,
        i64_member(m, "online"@) is Some,
    ensures
        players_ok(m),
        forall|p: Players| #[trigger] players_matches(p, m) ==> p.sample@.len() == 0,
{
}

/// The text of the string member `key` of `v`, copied.
fn str_member_of(v: &serde_json::Value, key: &str) -> (r: Option<String>)
    ensures
        (r is Some) == (str_member(json_model(*v), key@) is Some),
        r matches Some(s) ==> str_member(json_model(*v), key@) == Some(s@),
{
    match member(v, key) {
        Some(m) => match m.as_str() {
            Some(s) => Some(s.to_owned()),
            None => None,
        },
        None => None,
    }
}

/// The `i64` member `key` of `v`.
fn i64_member_of(v: &serde_json::Value, key: &str) -> (r: Option<i64>)
    ensures
        (r is Some) == (i64_member(json_model(*v), key@) is Some),
        r matches Some(n) ==> i64_member(json_model(*v), key@) == Some(n as int),
{
    match member(v, key) {
        Some(m) => m.as_i64(),
        None => None,
    }
}

/// Decodes a description: the structured shape `{"text": ...}` is tried
/// first, then a plain string.
pub fn decode_description(v: &serde_json::Value) -> (r: Option<Description>)
    ensures
        (r is Some) == description_ok(json_model(*v)),
        r matches Some(d) ==> description_matches(d, json_model(*v)),
{
    match str_member_of(v, "text") {
        Some(text) => Some(Description::TextDescription(TextDescription { text })),
        None => match v.as_str() {
            Some(s) => Some(Description::RawDescription(s.to_owned())),
            None => None,
        },
    }
}

/// Decodes one sample entry.
pub fn decode_sample(v: &serde_json::Value) -> (r: Option<Sample>)
    ensures
        (r is Some) == sample_ok(json_model(*v)),
        r matches Some(s) ==> sample_matches(s, json_model(*v)),
{
    let id = match str_member_of(v, "id") {
        Some(id) => id,
        None => return None,
    };
    let name = match str_member_of(v, "name") {
        Some(name) => name,
        None => return None,
    };
    Some(Sample { id, name })
}

/// Decodes a version.
pub fn decode_version(v: &serde_json::Value) -> (r: Option<Version>)
    ensures
        (r is Some) == version_ok(json_model(*v)),
        r matches Some(x) ==> version_matches(x, json_model(*v)),
{
    let name = match str_member_of(v, "name") {
        Some(name) => name,
        None => return None,
    };
    let protocol = match i64_member_of(v, "protocol") {
        Some(p) => p,
        None => return None,
    };
    Some(Version { name, protocol })
}

/// Decodes player counts and the sample; a missing sample is empty.
pub fn decode_players(v: &serde_json::Value) -> (r: Option<Players>)
    ensures
        (r is Some) == players_ok(json_model(*v)),
        r matches Some(p) ==> players_matches(p, json_model(*v)),
{
    let max = match i64_member_of(v, "max") {
        Some(n) => n,
        None => return None,
    };
    let online = match i64_member_of(v, "online") {
        Some(n) => n,
        None => return None,
    };
    let mut sample: Vec<Sample> = Vec::new();
    match member(v, "sample") {
        None => {
            assert(sample_elements(json_model(*v)) == Some(Seq::<JsonModel>::empty()));
        },
        Some(list) => {
            let items = match list.as_array() {
                Some(items) => items,
                None => return None,
            };
            let ghost a = items@.map_values(|e: serde_json::Value| json_model(e));
            assert(sample_elements(json_model(*v)) == Some(a));
            let mut i: usize = 0;
            while i < items.len()
                invariant
                    i <= items@.len(),
                    a == items@.map_values(|e: serde_json::Value| json_model(e)),
                    sample_elements(json_model(*v)) == Some(a),
                    sample@.len() == i,
                    forall|j: int| 0 <= j < i ==> sample_matches(#[trigger] sample@[j], a[j]),
                    forall|j: int| 0 <= j < i ==> sample_ok(#[trigger] a[j]),
                decreases items.len() - i,
            {
                assert(a[i as int] == json_model(items@[i as int]));
                match decode_sample(&items[i]) {
                    Some(s) => sample.push(s),
                    None => {
                        assert(!sample_ok(a[i as int]));
                        assert(!players_ok(json_model(*v))) by {
                            if players_ok(json_model(*v)) {
                                assert(sample_list(json_model(*v)) == a);
                                assert(sample_ok(sample_list(json_model(*v))[i as int]));
                            }
                        }
                        return None;
                    },
                }
                i = i + 1;
            }
        },
    }
    Some(Players { max, online, sample })
}

/// Decodes a parsed status payload. Every member but `favicon` and
/// `players.sample` is required.
pub fn decode_status(v: &serde_json::Value) -> (r: Result<StatusResponse, StatusError>)
    ensures
        (r is Ok) == status_ok(json_model(*v)),
        r matches Ok(s) ==> status_matches(s, json_model(*v)),
        r is Err ==> r == Err::<StatusResponse, StatusError>(StatusError::JsonMalformed),
{
    let description = match member(v, "description") {
        Some(d) => match decode_description(d) {
            Some(d) => d,
            None => return Err(StatusError::JsonMalformed),
        },
        None => return Err(StatusError::JsonMalformed),
    };
    let favicon = match member(v, "favicon") {
        Some(f) => match f.as_str() {
            Some(s) => s.to_owned(),
            None => return Err(StatusError::JsonMalformed),
        },
        None => String::new(),
    };
    let players = match member(v, "players") {
        Some(p) => match decode_players(p) {
            Some(p) => p,
            None => return Err(StatusError::JsonMalformed),
        },
        None => return Err(StatusError::JsonMalformed),
    };
    let version = match member(v, "version") {
        Some(x) => match decode_version(x) {
            Some(x) => x,
            None => return Err(StatusError::JsonMalformed),
        },
        None => return Err(StatusError::JsonMalformed),
    };
    Ok(StatusResponse { description, favicon, players, version })
}

/// Decodes a stored payload: UTF-8 text, then one JSON value, then a status.
pub fn decode_payload(raw: &[u8]) -> (r: Result<StatusResponse, StatusError>)
    ensures
        r matches Err(e) ==> decode_outcome(raw@) == Some(e),
        r matches Ok(s) ==> {
            &&& decode_outcome(raw@) is None
            &&& parsed_json(decode_utf8(raw@)) matches Some(m) && status_matches(s, m)
        },
{
    let text = match utf8_text(raw) {
        Some(t) => t,
        None => return Err(StatusError::InvalidUtf8),
    };
    let value = match parse_value(text) {
        Ok(v) => v,
        Err(_) => return Err(StatusError::JsonMalformed),
    };
    decode_status(&value)
}

impl<'a> ServerStatus<'a> {
    /// Decodes the payload of the last successful query. Fails with
    /// `NotYetQueried` before any.
    pub fn to_json(&self) -> (r: Result<StatusResponse, StatusError>)
        ensures
            self.status is NotQueried ==> r == Err::<StatusResponse, StatusError>(
                StatusError::NotYetQueried,
            ),
            self.status matches QueryState::Queried(raw) ==> {
                &&& r matches Err(e) ==> decode_outcome(raw@) == Some(e)
                &&& r matches Ok(s) ==> {
                    &&& decode_outcome(raw@) is None
                    &&& parsed_json(decode_utf8(raw@)) matches Some(m) && status_matches(s, m)
                }
            },
    {
        match &self.status {
            QueryState::NotQueried => Err(StatusError::NotYetQueried),
            QueryState::Queried(raw) => decode_payload(raw.as_slice()),
        }
    }
}

} // verus!
