//! The text of JSON values, as `serde_json` reads and writes it.
use vstd::prelude::*;

use crate::json::{Json, JsonView, OtherNumber};
use crate::text;

verus! {

/// The JSON value that a value of `serde_json` holds.
pub uninterp spec fn value_json(value: serde_json::Value) -> JsonView;

/// What `serde_json::from_str` makes of `text`: a value, or the message of its error.
pub uninterp spec fn parsed_json(text: Seq<char>) -> Result<JsonView, Seq<char>>;

/// The text that `serde_json::Value` displays as.
pub uninterp spec fn displayed_json(json: JsonView) -> Seq<char>;

/// The text that `serde_json::to_string` makes of a value.
pub uninterp spec fn encoded_json(json: JsonView) -> Seq<char>;

/// The text that `serde_json::to_string_pretty` makes of a value.
pub uninterp spec fn pretty_json(json: JsonView) -> Seq<char>;

/// Whether at most `depth` arrays and objects are nested in `json`.
pub open spec fn nests_within(json: JsonView, depth: nat) -> bool
    decreases depth,
{
    match json {
        JsonView::Array(items) => depth > 0 && forall|i: int|
            0 <= i < items.len() ==> nests_within(#[trigger] items[i], (depth - 1) as nat),
        JsonView::Object(members) => depth > 0 && forall|key: Seq<char>|
            members.contains_key(key) ==> nests_within(
                #[trigger] members[key],
                (depth - 1) as nat,
            ),
        _ => true,
    }
}

/// Whether every number in `json` is an integer and at most `depth` arrays and objects are
/// nested.
pub open spec fn is_plain(json: JsonView, depth: nat) -> bool
    decreases depth,
{
    match json {
        JsonView::Other(_) => false,
        JsonView::Array(items) => depth > 0 && forall|i: int|
            0 <= i < items.len() ==> is_plain(#[trigger] items[i], (depth - 1) as nat),
        JsonView::Object(members) => depth > 0 && forall|key: Seq<char>|
            members.contains_key(key) ==> is_plain(#[trigger] members[key], (depth - 1) as nat),
        _ => true,
    }
}

/// Whether every number in `json` is an integer.
pub open spec fn has_integers_only(json: JsonView) -> bool {
    exists|depth: nat| #[trigger] is_plain(json, depth)
}

/// How deep arrays and objects may be nested in a text that is read.
pub const READABLE_DEPTH: u64 = 127;

/// A value that is plain at some depth is so at every depth that it keeps to.
pub proof fn lemma_plain_within(json: JsonView, depth: nat, within: nat)
    requires
        is_plain(json, depth),
        nests_within(json, within),
    ensures
        is_plain(json, within),
    decreases depth,
{
    match json {
        JsonView::Array(items) => {
            assert forall|i: int| 0 <= i < items.len() implies is_plain(
                #[trigger] items[i],
                (within - 1) as nat,
            ) by {
                assert(nests_within(items[i], (within - 1) as nat));
                lemma_plain_within(items[i], (depth - 1) as nat, (within - 1) as nat);
            }
        },
        JsonView::Object(members) => {
            assert forall|key: Seq<char>| members.contains_key(key) implies is_plain(
                #[trigger] members[key],
                (within - 1) as nat,
            ) by {
                assert(nests_within(members[key], (within - 1) as nat));
                lemma_plain_within(members[key], (depth - 1) as nat, (within - 1) as nat);
            }
        },
        _ => {},
    }
}

/// Whether `serde_json::from_str` reads `json` from `text`.
pub open spec fn reads_as(text: Seq<char>, json: JsonView) -> bool {
    parsed_json(text) == Ok::<JsonView, Seq<char>>(json)
}

/// The view of an outcome that is a value of `serde_json` or a message.
pub open spec fn result_value(res: Result<serde_json::Value, String>) -> Result<
    JsonView,
    Seq<char>,
> {
    match res {
        Ok(value) => Ok(value_json(value)),
        Err(message) => Err(message@),
    }
}

/// Converts a value of `serde_json`, variant by variant.
///
/// The contract claims that the result is the value that `value_json` names.
#[verifier::external_body]
fn json_from_value(value: serde_json::Value) -> (res: Json)
    ensures
        res@ == value_json(value),
{
    match value {
        serde_json::Value::Null => Json::Null,
        serde_json::Value::Bool(b) => Json::Bool(b),
        serde_json::Value::Number(number) => match (number.as_u64(), number.as_i64()) {
            (Some(n), _) => Json::Unsigned(n),
            (None, Some(n)) => Json::Signed(n),
            (None, None) => Json::Other(OtherNumber { number }),
        },
        serde_json::Value::String(s) => Json::Str(s),
        serde_json::Value::Array(v) => Json::Array(v.into_iter().map(json_from_value).collect()),
        serde_json::Value::Object(m) => {
            Json::Object(m.into_iter().map(|(k, v)| (k, json_from_value(v))).collect())
        },
    }
}

/// Converts to a value of `serde_json`, variant by variant.
///
/// The contract claims that the result holds `json`: where entries of an object share a
/// key, `serde_json::Map` keeps the last.
#[verifier::external_body]
fn value_from_json(json: &Json) -> (res: serde_json::Value)
    ensures
        value_json(res) == json@,
{
    match json {
        Json::Null => serde_json::Value::Null,
        Json::Bool(b) => serde_json::Value::Bool(*b),
        Json::Unsigned(n) => serde_json::Value::from(*n),
        Json::Signed(n) => serde_json::Value::from(*n),
        Json::Other(n) => serde_json::Value::Number(n.number.clone()),
        Json::Str(s) => serde_json::Value::String(s.clone()),
        Json::Array(v) => serde_json::Value::Array(v.iter().map(value_from_json).collect()),
        Json::Object(m) => serde_json::Value::Object(
            m.iter().map(|(k, v)| (k.clone(), value_from_json(v))).collect(),
        ),
    }
}

/// `serde_json::from_str` for a `serde_json::Value`.
///
/// The contract claims that the outcome is the one that `parsed_json` names, and that no value
/// is read that is nested deeper than the limit of `serde_json` on recursion lets through.
#[verifier::external_body]
fn value_from_str(text: &str) -> (res: Result<serde_json::Value, String>)
    ensures
        result_value(res) == parsed_json(text@),
        result_value(res) matches Ok(json) ==> nests_within(json, READABLE_DEPTH as nat),
{
    serde_json::from_str(text).map_err(|err| err.to_string())
}

/// `serde_json::Value::to_string`, the compact form.
///
/// The contract claims that the text is the one that `displayed_json` names.
#[verifier::external_body]
fn value_display(value: &serde_json::Value) -> (res: String)
    ensures
        res@ == displayed_json(value_json(*value)),
{
    value.to_string()
}

/// `serde_json::to_string` for a `serde_json::Value`.
///
/// The contract claims that there is no error, that the text is the one that `encoded_json`
/// names and holds no line break, and that `serde_json::from_str` reads a plain value back. Of
/// numbers that are no integers it does not claim that: they may come back less exact.
#[verifier::external_body]
fn value_encode(value: &serde_json::Value) -> (res: Result<String, String>)
    ensures
        res is Ok,
        res->Ok_0@ == encoded_json(value_json(*value)),
        res matches Ok(text) ==> !text@.contains('\n'),
        res matches Ok(text) ==> is_plain(value_json(*value), READABLE_DEPTH as nat)
            ==> reads_as(text@, value_json(*value)),
{
    serde_json::to_string(value).map_err(|err| err.to_string())
}

/// `serde_json::to_string_pretty` for a `serde_json::Value`.
///
/// The contract claims that there is no error, that the text is the one that `pretty_json`
/// names, and that `serde_json::from_str` reads a plain value back, with or without a line break
/// after it. Of numbers that are no integers it does not claim that: they may come back less
/// exact.
#[verifier::external_body]
fn value_pretty(value: &serde_json::Value) -> (res: Result<String, String>)
    ensures
        res is Ok,
        res->Ok_0@ == pretty_json(value_json(*value)),
        res matches Ok(text) ==> is_plain(value_json(*value), READABLE_DEPTH as nat) ==> {
            &&& reads_as(text@, value_json(*value))
            &&& reads_as(text@.push('\n'), value_json(*value))
        },
{
    serde_json::to_string_pretty(value).map_err(|err| err.to_string())
}

/// The message of `serde_json`'s `invalid_type` for a value in place of what was expected.
pub uninterp spec fn invalid_type_message(json: JsonView, expected: Seq<char>) -> Seq<char>;

/// `serde::de::Error::invalid_type` of `serde_json::Error`, for the kind of `json`.
///
/// The contract claims that the message is the one that `invalid_type_message` names.
#[verifier::external_body]
pub(crate) fn invalid_type_text(json: &Json, expected: &str) -> (res: String)
    ensures
        res@ == invalid_type_message(json@, expected@),
{
    let found = match json {
        Json::Null => serde::de::Unexpected::Unit,
        Json::Bool(b) => serde::de::Unexpected::Bool(*b),
        Json::Unsigned(n) => serde::de::Unexpected::Unsigned(*n),
        Json::Signed(n) => serde::de::Unexpected::Signed(*n),
        Json::Other(n) => serde::de::Unexpected::Float(n.number.as_f64().unwrap_or_default()),
        Json::Str(s) => serde::de::Unexpected::Str(s),
        Json::Array(_) => serde::de::Unexpected::Seq,
        Json::Object(_) => serde::de::Unexpected::Map,
    };
    let error: serde_json::Error = serde::de::Error::invalid_type(found, &expected);
    error.to_string()
}

/// The view of an outcome that is a value or a message.
pub open spec fn result_json(res: Result<Json, String>) -> Result<JsonView, Seq<char>> {
    match res {
        Ok(json) => Ok(json@),
        Err(message) => Err(message@),
    }
}

/// Reads a JSON text.
pub fn parse_json(text: &str) -> (res: Result<Json, String>)
    ensures
        result_json(res) == parsed_json(text@),
        res matches Ok(json) ==> nests_within(json@, READABLE_DEPTH as nat),
{
    match value_from_str(text) {
        Ok(value) => Ok(json_from_value(value)),
        Err(message) => Err(message),
    }
}

/// The text of `json` in compact form, for messages to people.
pub fn json_text(json: &Json) -> (res: String)
    ensures
        res@ == displayed_json(json@),
{
    value_display(&value_from_json(json))
}

/// The text of `json` in compact form, for a peer.
pub fn encode_json(json: &Json) -> (res: Result<String, String>)
    ensures
        res matches Ok(text) && text@ == encoded_json(json@),
        res matches Ok(text) ==> !text@.contains('\n'),
        res matches Ok(text) ==> is_plain(json@, READABLE_DEPTH as nat) ==> reads_as(
            text@,
            json@,
        ),
{
    value_encode(&value_from_json(json))
}

/// The text of `json`, indented.
pub fn pretty_text(json: &Json) -> (res: Result<String, String>)
    ensures
        res matches Ok(text) && text@ == pretty_json(json@),
        res matches Ok(text) ==> is_plain(json@, READABLE_DEPTH as nat) ==> {
            &&& reads_as(text@, json@)
            &&& reads_as(text@.push('\n'), json@)
        },
{
    value_pretty(&value_from_json(json))
}

/// A value whose numbers are integers, nested no deeper than can be read, is read back from what
/// was written of it, in either form, and also where a line break was added to the indented one.
pub proof fn law_written_value_is_read_back(
    json: &Json,
    line: String,
    page: String,
    read_line: &str,
    read_page: &str,
    read_lines: &str,
    back: Result<Json, String>,
    back_page: Result<Json, String>,
    back_lines: Result<Json, String>,
)
    requires
        call_ensures(encode_json, (json,), Ok::<String, String>(line)),
        call_ensures(pretty_text, (json,), Ok::<String, String>(page)),
        read_line@ == line@,
        read_page@ == page@,
        read_lines@ == page@.push('\n'),
        call_ensures(parse_json, (read_line,), back),
        call_ensures(parse_json, (read_page,), back_page),
        call_ensures(parse_json, (read_lines,), back_lines),
        has_integers_only(json@),
        nests_within(json@, 127),
    ensures
        back matches Ok(value) && value@ == json@,
        back_page matches Ok(value) && value@ == json@,
        back_lines matches Ok(value) && value@ == json@,
{
    let depth = choose|depth: nat| #[trigger] is_plain(json@, depth);
    lemma_plain_within(json@, depth, 127);
}

/// Every value can be written, and takes one line in the compact form.
pub proof fn law_every_value_can_be_written(
    json: &Json,
    line: Result<String, String>,
    page: Result<String, String>,
)
    requires
        call_ensures(encode_json, (json,), line),
        call_ensures(pretty_text, (json,), page),
    ensures
        line matches Ok(text) && !text@.contains('\n'),
        page is Ok,
{
}

/// Equal texts are read as the same value or refused with the same message, and equal values are
/// written alike.
pub proof fn law_text_depends_on_the_value_alone(
    a: &Json,
    b: &Json,
    text_a: String,
    text_b: String,
    source: &str,
    first: Result<Json, String>,
    second: Result<Json, String>,
)
    requires
        a@ == b@,
        call_ensures(json_text, (a,), text_a),
        call_ensures(json_text, (b,), text_b),
        call_ensures(parse_json, (source,), first),
        call_ensures(parse_json, (source,), second),
    ensures
        text_a@ == text_b@,
        first matches Ok(one) ==> (second matches Ok(other) && one@ == other@),
        first matches Err(one) ==> (second matches Err(other) && one@ == other@),
{
}

} // verus!
