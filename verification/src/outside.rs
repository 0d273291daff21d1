//! What the library has from other crates, and from parts of the standard
//! library. The contracts in this module are taken on trust: each states what the
//! function that it names documents.

use crate::collections::overlaid;
use crate::json::JsonView;
use crate::protocol::{OutcomeView, PermissionOutcome};
use crate::text::texts;
use agent_client_protocol::v1::schema::{RequestPermissionOutcome, SelectedPermissionOutcome};
use std::collections::HashMap;
use std::path::PathBuf;
use vstd::prelude::*;

verus! {

/// `str`'s `==` compares the characters of the two texts.
pub assume_specification[ <str as PartialEq<str>>::eq ](a: &str, b: &str) -> (r: bool)
    ensures
        r == (a@ == b@),
;

/// A number of `serde_json`, carried through and never looked into.
#[verifier::external_type_specification]
#[verifier::external_body]
pub struct ExNumber(serde_json::Number);

/// A value of `serde_json`; `value_view` says what it stands for.
#[verifier::external_type_specification]
#[verifier::external_body]
pub struct ExValue(serde_json::Value);

/// `serde_json::Number::clone` gives the same number back.
pub assume_specification[ <serde_json::Number as Clone>::clone ](
    n: &serde_json::Number,
) -> (r: serde_json::Number)
    ensures
        r == *n,
;

/// What a value of `serde_json` stands for.
pub uninterp spec fn value_view(v: serde_json::Value) -> JsonView;

/// What `serde_json` says of a value that is no array of strings.
pub uninterp spec fn text_list_error(v: JsonView) -> Seq<char>;

/// What the values of a list stand for.
pub open spec fn values_view(values: Seq<serde_json::Value>) -> Seq<JsonView> {
    values.map_values(|v: serde_json::Value| value_view(v))
}

/// What the entries of a list stand for; the last entry of a key counts.
pub open spec fn value_entries_view(entries: Seq<(String, serde_json::Value)>) -> Map<
    Seq<char>,
    JsonView,
>
    decreases entries.len(),
{
    if entries.len() == 0 {
        Map::empty()
    } else {
        value_entries_view(entries.drop_last()).insert(
            entries.last().0@,
            value_view(entries.last().1),
        )
    }
}

/// `serde_json::Value::Null` is null.
#[verifier::external_body]
pub(crate) fn null_value() -> (r: serde_json::Value)
    ensures
        value_view(r) == JsonView::Null,
{
    serde_json::Value::Null
}

/// `serde_json::Value::Bool` holds a truth value.
#[verifier::external_body]
pub(crate) fn bool_value(b: bool) -> (r: serde_json::Value)
    ensures
        value_view(r) == JsonView::Bool(b),
{
    serde_json::Value::Bool(b)
}

/// `serde_json::Value::Number` holds a number.
#[verifier::external_body]
pub(crate) fn number_value(n: serde_json::Number) -> (r: serde_json::Value)
    ensures
        value_view(r) == JsonView::Number(n),
{
    serde_json::Value::Number(n)
}

/// `serde_json::Value::String` holds a text.
#[verifier::external_body]
pub(crate) fn text_value(t: String) -> (r: serde_json::Value)
    ensures
        value_view(r) == JsonView::Text(t@),
{
    serde_json::Value::String(t)
}

/// `serde_json::Value::Array` holds the items in their order.
#[verifier::external_body]
pub(crate) fn array_value(items: Vec<serde_json::Value>) -> (r: serde_json::Value)
    ensures
        value_view(r) == JsonView::Array(values_view(items@)),
{
    serde_json::Value::Array(items)
}

/// `serde_json::Value::Object` holds the entries that are collected into a
/// `serde_json::Map`, which keeps the last entry of each key.
#[verifier::external_body]
pub(crate) fn object_value(entries: Vec<(String, serde_json::Value)>) -> (r: serde_json::Value)
    ensures
        value_view(r) == JsonView::Object(value_entries_view(entries@)),
{
    serde_json::Value::Object(entries.into_iter().collect())
}

/// `serde_json::from_value::<Vec<String>>` reads an array of strings, and
/// nothing else, as the list of its texts. What its error says is a function of
/// the value.
#[verifier::external_body]
pub(crate) fn texts_from_value(v: serde_json::Value) -> (r: Result<Vec<String>, String>)
    ensures
        match r {
            Ok(list) => value_view(v).text_list() == Some(texts(list@)),
            Err(e) => value_view(v).text_list() is None && e@ == text_list_error(value_view(v)),
        },
{
    serde_json::from_value::<Vec<String>>(v).map_err(|e| e.to_string())
}

/// `serde_json::from_value::<HashMap<String, String>>` reads an object whose
/// values are strings, and nothing else, as the table of its entries. The entries
/// come in any order.
#[verifier::external_body]
pub(crate) fn text_table_from_value(v: serde_json::Value) -> (r: Option<Vec<(String, String)>>)
    ensures
        match r {
            Some(pairs) => value_view(v).text_table() == Some(overlaid(Map::empty(), pairs@)),
            None => value_view(v).text_table() is None,
        },
{
    serde_json::from_value::<HashMap<String, String>>(v).ok().map(|m| m.into_iter().collect())
}

/// The UUIDs of an array that holds nothing but texts that name one.
pub open spec fn id_list(v: JsonView) -> Option<Seq<u128>> {
    match v.text_list() {
        Some(list) => if forall|i: int|
            0 <= i < list.len() ==> uuid_named(#[trigger] list[i]) is Some {
            Some(list.map_values(|t: Seq<char>| uuid_named(t)->0))
        } else {
            None
        },
        None => None,
    }
}

/// `serde_json::from_value::<Vec<uuid::Uuid>>` reads an array of strings that
/// `uuid::Uuid::parse_str` reads, and nothing else, as the list of the UUIDs.
#[verifier::external_body]
pub(crate) fn ids_from_value(v: serde_json::Value) -> (r: Option<Vec<u128>>)
    ensures
        match r {
            Some(list) => id_list(value_view(v)) == Some(list@),
            None => id_list(value_view(v)) is None,
        },
{
    let list = serde_json::from_value::<Vec<uuid::Uuid>>(v).ok();
    list.map(|ids| ids.iter().map(|u| u.as_u128()).collect())
}

/// A path, carried through; `path_text` says how it reads.
#[verifier::external_type_specification]
#[verifier::external_body]
pub struct ExPathBuf(std::path::PathBuf);

/// `std::path::PathBuf::clone` gives the same path back.
pub assume_specification[ <PathBuf as Clone>::clone ](p: &PathBuf) -> (r: PathBuf)
    ensures
        r == *p,
;

/// A path as text, with what is no Unicode replaced.
pub uninterp spec fn path_text(p: PathBuf) -> Seq<char>;

/// `std::path::Path::to_string_lossy` writes a path as text; the text is a
/// function of the path.
#[verifier::external_body]
pub(crate) fn path_to_text(p: &PathBuf) -> (r: String)
    ensures
        r@ == path_text(*p),
{
    p.to_string_lossy().to_string()
}

/// The path that leads from `base` on to `rest`.
pub uninterp spec fn path_joined(base: Seq<char>, rest: Seq<char>) -> PathBuf;

/// `std::path::Path::join` leads from one path on to another; the path that
/// comes out is a function of the two.
#[verifier::external_body]
pub(crate) fn join_path(base: &str, rest: &str) -> (r: PathBuf)
    ensures
        r == path_joined(base@, rest@),
{
    std::path::Path::new(base).join(rest)
}

/// The user's decision as the agent is told it; `outcome_view` says what it is.
#[verifier::external_type_specification]
#[verifier::external_body]
pub struct ExRequestPermissionOutcome(RequestPermissionOutcome);

/// The decision that an agent is told.
pub uninterp spec fn outcome_view(o: RequestPermissionOutcome) -> OutcomeView;

/// `agent_client_protocol`'s `SelectedPermissionOutcome::new` makes the outcome
/// that selects the option with this id; a cancelled request has an outcome of
/// its own.
#[verifier::external_body]
pub(crate) fn permission_outcome(o: PermissionOutcome) -> (r: RequestPermissionOutcome)
    ensures
        outcome_view(r) == o@,
{
    match o {
        PermissionOutcome::Selected { option_id } => RequestPermissionOutcome::Selected(
            SelectedPermissionOutcome::new(option_id),
        ),
        PermissionOutcome::Cancelled => RequestPermissionOutcome::Cancelled,
    }
}

/// The SHA-256 digest of `data`.
pub uninterp spec fn sha256(data: Seq<u8>) -> Seq<u8>;

/// `sha2::Sha256::digest` computes the SHA-256 digest, which has 32 bytes.
#[verifier::external_body]
pub(crate) fn sha256_digest(data: &[u8]) -> (r: Vec<u8>)
    ensures
        r@ == sha256(data@),
        r@.len() == 32,
{
    <sha2::Sha256 as sha2::Digest>::digest(data).to_vec()
}

/// The lowercase hexadecimal digit `d`.
pub open spec fn hex_digit(d: int) -> char {
    if d < 10 {
        (48 + d) as char
    } else {
        (87 + d) as char
    }
}

/// `data` in lowercase hexadecimal, two digits a byte, the high one first.
pub open spec fn hex_text(data: Seq<u8>) -> Seq<char> {
    Seq::new(
        2 * data.len(),
        |i: int|
            hex_digit(
                if i % 2 == 0 {
                    data[i / 2] as int / 16
                } else {
                    data[i / 2] as int % 16
                },
            ),
    )
}

/// `hex::encode` writes each byte as two lowercase hexadecimal digits.
#[verifier::external_body]
pub(crate) fn hex_encode(data: &[u8]) -> (r: String)
    ensures
        r@ == hex_text(data@),
{
    hex::encode(data)
}

/// `hostname::get` asks the system for the name of this machine; nothing is
/// known of the answer, which is absent where the call fails.
#[verifier::external_body]
pub(crate) fn host_name() -> (r: Option<String>) {
    hostname::get().map(|h| h.to_string_lossy().to_string()).ok()
}

/// `machine_uid::get` reads the identity of this machine; nothing is known of
/// the answer, which is absent where the call fails.
#[verifier::external_body]
pub(crate) fn machine_id() -> (r: Option<String>) {
    machine_uid::get().ok()
}

/// `uuid::Uuid::new_v4` draws a random UUID; nothing is known of which one.
#[verifier::external_body]
pub(crate) fn random_uuid() -> (r: u128) {
    uuid::Uuid::new_v4().as_u128()
}

/// `chrono::Utc::now` reads the clock; nothing is known of the second it gives.
#[verifier::external_body]
pub(crate) fn now_seconds() -> (r: i64) {
    chrono::Utc::now().timestamp()
}

/// The `k`th hexadecimal digit of a UUID, counted from the most significant.
pub open spec fn uuid_digit(id: u128, k: int) -> char {
    hex_digit((id as int / vstd::arithmetic::power::pow(16, (31 - k) as nat)) % 16)
}

/// A UUID in lowercase, with hyphens: 8, 4, 4, 4 and 12 hexadecimal digits.
pub open spec fn uuid_text(id: u128) -> Seq<char> {
    Seq::new(
        36,
        |i: int|
            if i == 8 || i == 13 || i == 18 || i == 23 {
                '-'
            } else {
                uuid_digit(
                    id,
                    if i < 8 {
                        i
                    } else if i < 13 {
                        i - 1
                    } else if i < 18 {
                        i - 2
                    } else if i < 23 {
                        i - 3
                    } else {
                        i - 4
                    },
                )
            },
    )
}

/// The UUID that a text names, where it names one.
pub uninterp spec fn uuid_named(s: Seq<char>) -> Option<u128>;

/// `uuid::Uuid`'s `Display` writes the lowercase hyphenated form, which
/// `uuid::Uuid::parse_str` reads as the same UUID again.
#[verifier::external_body]
pub(crate) fn format_uuid(id: u128) -> (r: String)
    ensures
        r@ == uuid_text(id),
        uuid_named(r@) == Some(id),
{
    uuid::Uuid::from_u128(id).to_string()
}

/// `uuid::Uuid::parse_str` reads any of the written forms of a UUID; which text
/// names which UUID is a function of the text.
#[verifier::external_body]
pub(crate) fn parse_uuid(s: &str) -> (r: Option<u128>)
    ensures
        r == uuid_named(s@),
{
    uuid::Uuid::parse_str(s).ok().map(|u| u.as_u128())
}

/// The points in time that `chrono::DateTime<Utc>` can hold, as seconds since
/// 1970 and nanoseconds: the years -262143 to 262142, with a second's worth of
/// nanoseconds, or two seconds' worth in the last second of a minute.
pub open spec fn time_in_range(secs: i64, nanos: u32) -> bool {
    &&& -8_334_601_228_800 <= secs <= 8_210_266_876_799
    &&& nanos < 1_000_000_000 || (nanos < 2_000_000_000 && secs as int % 60 == 59)
}

/// A point in time in the notation of RFC 3339.
pub uninterp spec fn rfc3339_text(secs: i64, nanos: u32) -> Seq<char>;

/// `chrono::DateTime::from_timestamp` takes the points in time that it can hold
/// and no others; what `to_rfc3339` writes is a function of the point in time.
#[verifier::external_body]
pub(crate) fn rfc3339(secs: i64, nanos: u32) -> (r: Option<String>)
    ensures
        r is Some <==> time_in_range(secs, nanos),
        r matches Some(t) ==> t@ == rfc3339_text(secs, nanos),
{
    chrono::DateTime::from_timestamp(secs, nanos).map(|t| t.to_rfc3339())
}

} // verus!
