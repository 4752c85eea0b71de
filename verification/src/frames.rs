//! The frames that travel over a socket, as JSON text.
//!
//! An inbound frame is an object with a text field `content`. An outbound
//! frame is an object with the text fields `senderId`, optionally
//! `username`, `content`, and `createdAt` in RFC 3339 form.

use crate::clock::{rfc3339, rfc3339_text};
use vstd::prelude::*;
use vstd::string::StringExecFns;

verus! {
/// The compact JSON text that `serde_json` prints for the object with these
/// text fields, inserted in this order.
pub uninterp spec fn json_object_text(fields: Seq<(Seq<char>, Seq<char>)>) -> Seq<char>;

/// The text that `serde_json`, having parsed `text`, finds under `key`:
/// `None` unless `text` is JSON, its value is an object, and the object
/// holds a string under `key`.
pub uninterp spec fn json_string_field(text: Seq<char>, key: Seq<char>) -> Option<Seq<char>>;

/// Fields as plain values.
pub open spec fn field_views(fields: Seq<(String, String)>) -> Seq<(Seq<char>, Seq<char>)> {
    fields.map_values(|f: (String, String)| (f.0@, f.1@))
}

/// Fills a `serde_json::Map` with the fields by `insert`, each value as a
/// JSON string, and prints `Value::Object` of it with its `Display`.
/// Trusted: the text is the named function of the fields.
#[verifier::external_body]
fn print_json_object(fields: &Vec<(String, String)>) -> (r: String)
    ensures
        r@ == json_object_text(field_views(fields@)),
{
    let mut object = serde_json::Map::new();
    for (key, value) in fields.iter() {
        object.insert(key.clone(), serde_json::Value::String(value.clone()));
    }
    serde_json::Value::Object(object).to_string()
}

/// Parses the text with `serde_json::from_str` into a `Value` and reads the
/// key with `Value::get` and `Value::as_str`.
/// Trusted: the result is the named function of text and key.
#[verifier::external_body]
fn read_json_string(text: &str, key: &str) -> (r: Option<String>)
    ensures
        r is Some <==> json_string_field(text@, key@) is Some,
        r matches Some(s) ==> Some(s@) == json_string_field(text@, key@),
{
    match serde_json::from_str::<serde_json::Value>(text) {
        Ok(value) => value.get(key).and_then(|v| v.as_str()).map(|s| s.to_string()),
        Err(_) => None,
    }
}

/// The content of an inbound frame, where the frame is well formed.
pub open spec fn inbound_content(text: Seq<char>) -> Option<Seq<char>> {
    json_string_field(text, "content"@)
}

/// The fields of an outbound frame.
pub open spec fn outbound_fields(
    sender_id: Seq<char>,
    username: Option<Seq<char>>,
    content: Seq<char>,
    created_at: Seq<char>,
) -> Seq<(Seq<char>, Seq<char>)> {
    match username {
        Some(name) => seq![
            ("senderId"@, sender_id),
            ("username"@, name),
            ("content"@, content),
            ("createdAt"@, created_at),
        ],
        None => seq![
            ("senderId"@, sender_id),
            ("content"@, content),
            ("createdAt"@, created_at),
        ],
    }
}

/// The outbound frame for a message, where its creation time has an
/// RFC 3339 form.
pub open spec fn outbound_text(
    sender_id: Seq<char>,
    username: Option<Seq<char>>,
    content: Seq<char>,
    created_at: i64,
) -> Option<Seq<char>> {
    match rfc3339_text(created_at) {
        Some(stamp) => Some(json_object_text(outbound_fields(sender_id, username, content, stamp))),
        None => None,
    }
}

/// Reads an inbound frame: `Some` content exactly for a JSON object that
/// holds a string under `content`. Anything else is malformed.
pub fn parse_inbound(text: &str) -> (r: Option<String>)
    ensures
        r is Some <==> inbound_content(text@) is Some,
        r matches Some(content) ==> Some(content@) == inbound_content(text@),
{
    read_json_string(text, "content")
}

/// Renders the outbound frame for a message from the sender's identity in
/// text form, the sender's name if it is to be shown, the content and the
/// creation time. `None` exactly where the creation time has no RFC 3339
/// form.
pub fn outbound_frame(sender_id: &str, username: Option<&str>, content: &str, created_at: i64) -> (r:
    Option<String>)
    ensures
        r is Some <==> rfc3339_text(created_at) is Some,
        r matches Some(frame) ==> Some(frame@) == outbound_text(
            sender_id@,
            match username {
                Some(name) => Some(name@),
                None => None,
            },
            content@,
            created_at,
        ),
{
    let stamp = match rfc3339(created_at) {
        Some(s) => s,
        None => {
            return None;
        },
    };
    let mut fields: Vec<(String, String)> = Vec::new();
    fields.push((String::from_str("senderId"), String::from_str(sender_id)));
    match username {
        Some(name) => {
            fields.push((String::from_str("username"), String::from_str(name)));
        },
        None => {},
    }
    fields.push((String::from_str("content"), String::from_str(content)));
    fields.push((String::from_str("createdAt"), stamp));
    proof {
        let name_view = match username {
            Some(name) => Some(name@),
            None => None,
        };
        assert(field_views(fields@) =~= outbound_fields(sender_id@, name_view, content@, stamp@));
    }
    Some(print_json_object(&fields))
}
} // verus!
