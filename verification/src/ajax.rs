//! The AJAX response decoder.
//!
//! The server's AJAX layer is not a clean JSON API: a reply may be raw
//! JSON, JSON wrapped in a `<textarea>` fragment, or the bare text
//! `Hacking attempt!` when the anti-CSRF token was stale.  This module
//! normalizes all of that into either a JSON-object payload or a typed
//! error, in a fixed order: sentinel first, unwrapping second, JSON shape
//! third, error envelope last.

use vstd::prelude::*;

verus! {

use crate::json::{
    json_bool_at, json_bool_field, json_is_object, json_object_ok, json_parse_ok, json_parses,
    json_str_at, json_str_field, json_u64_at, json_u64_field,
};
use crate::text::{starts_with, str_starts_with, str_trim, trimmed, u64_parse_spec, parse_u64};
use crate::{TabunError, TabunResult};

/// The combined text of the first `textarea` element of an HTML
/// fragment, as the HTML parser reads it; a function of the fragment
/// alone.
pub uninterp spec fn textarea_text_of(s: Seq<char>) -> Option<Seq<char>>;

/// Relies on select's `Document::from`, `Document::find` with a
/// tag-name predicate, and `Node::text`: the text of the fragment's
/// first `textarea` element, if it has one.
#[verifier::external_body]
fn textarea_text(s: &str) -> (r: Option<String>)
    ensures
        r matches Some(t) ==> textarea_text_of(s@) == Some(t@),
        r is None ==> textarea_text_of(s@) is None,
{
    select::document::Document::from(s)
        .find(select::predicate::Name("textarea"))
        .next()
        .map(|n| n.text())
}

/// What decoding classifies a raw AJAX reply as.
pub enum AjaxDecoded {
    /// The stale-token sentinel.
    Hacking,
    /// The server's error envelope: title and message, absent fields
    /// read as empty.
    Envelope(Seq<char>, Seq<char>),
    /// No JSON object could be recovered from the reply.
    Malformed,
    /// A JSON object payload: the exact text later field lookups read.
    Object(Seq<char>),
}

/// The JSON text a reply carries: the trimmed body itself, or the
/// content of the `textarea` wrapper when the body arrives wrapped.
pub open spec fn payload_text_of(s: Seq<char>) -> Option<Seq<char>> {
    let t = trimmed(s);
    if starts_with(t, "<textarea>{"@) {
        textarea_text_of(t)
    } else {
        Some(t)
    }
}

/// The decoder, as a function of the raw reply text.
pub open spec fn decode_ajax_spec(s: Seq<char>) -> AjaxDecoded {
    let t = trimmed(s);
    if starts_with(t, "Hacking"@) {
        AjaxDecoded::Hacking
    } else {
        match payload_text_of(s) {
            None => AjaxDecoded::Malformed,
            Some(p) => {
                if !json_parses(p) {
                    AjaxDecoded::Malformed
                } else if !json_is_object(p) {
                    AjaxDecoded::Malformed
                } else if json_bool_at(p, "/bStateError"@) == Some(true) {
                    AjaxDecoded::Envelope(
                        match json_str_at(p, "/sMsgTitle"@) {
                            Some(x) => x,
                            None => Seq::empty(),
                        },
                        match json_str_at(p, "/sMsg"@) {
                            Some(x) => x,
                            None => Seq::empty(),
                        },
                    )
                } else {
                    AjaxDecoded::Object(p)
                }
            },
        }
    }
}

/// The returned value matches what the decoder's model classifies the
/// reply as; parse failures of any step surface as `ParseError`.
pub open spec fn decode_matches(s: Seq<char>, r: TabunResult<String>) -> bool {
    match r {
        Ok(p) => decode_ajax_spec(s) == AjaxDecoded::Object(p@),
        Err(e) => match e {
            TabunError::HackingAttempt => decode_ajax_spec(s) == AjaxDecoded::Hacking,
            TabunError::Error(t, m) => decode_ajax_spec(s) == AjaxDecoded::Envelope(t@, m@),
            TabunError::ParseError(_, _) => decode_ajax_spec(s) == AjaxDecoded::Malformed,
            _ => false,
        },
    }
}

/// Decodes a raw AJAX reply into the JSON-object text every field
/// lookup then reads, or into a typed error.
pub fn decode_ajax(raw: &str) -> (r: TabunResult<String>)
    ensures
        decode_matches(raw@, r),
{
    let t = str_trim(raw);
    if str_starts_with(t, "Hacking") {
        return Err(TabunError::HackingAttempt);
    }
    let payload: String = if str_starts_with(t, "<textarea>{") {
        match textarea_text(t) {
            Some(x) => x,
            None => {
                return Err(TabunError::ParseError(
                    String::from_str("ajax"),
                    String::from_str("Cannot parse response from server"),
                ));
            },
        }
    } else {
        t.to_owned()
    };
    if !json_parse_ok(payload.as_str()) {
        return Err(TabunError::ParseError(
            String::from_str("ajax"),
            String::from_str("Cannot parse JSON object"),
        ));
    }
    if !json_object_ok(payload.as_str()) {
        return Err(TabunError::ParseError(
            String::from_str("ajax"),
            String::from_str("Expected JSON object"),
        ));
    }
    let state_error = matches!(json_bool_field(payload.as_str(), "/bStateError"), Some(true));
    if state_error {
        let title = match json_str_field(payload.as_str(), "/sMsgTitle") {
            Some(x) => x,
            None => String::new(),
        };
        let msg = match json_str_field(payload.as_str(), "/sMsg") {
            Some(x) => x,
            None => String::new(),
        };
        proof {
            reveal_strlit("");
        }
        return Err(TabunError::Error(title, msg));
    }
    Ok(payload)
}

/// The stale-token sentinel wins over everything: whenever the trimmed
/// reply merely begins with `Hacking`, decoding classifies it as a
/// hacking attempt, whatever the rest of the body holds — in particular
/// before any JSON parsing could see it.
pub proof fn lemma_hacking_checked_first(s: Seq<char>)
    requires
        starts_with(trimmed(s), "Hacking"@),
    ensures
        decode_ajax_spec(s) == AjaxDecoded::Hacking,
{
}

/// Decoding is a pure function of the reply text: two results that both
/// match the decoder's model for the same text agree, outcome kind,
/// payload and error fields alike.
pub proof fn lemma_decode_deterministic(
    s: Seq<char>,
    r1: TabunResult<String>,
    r2: TabunResult<String>,
)
    requires
        decode_matches(s, r1),
        decode_matches(s, r2),
    ensures
        r1 is Ok <==> r2 is Ok,
        r1 matches Ok(p1) ==> (r2 matches Ok(p2) && p1@ == p2@),
        r1 matches Err(TabunError::HackingAttempt) <==> r2 matches Err(
            TabunError::HackingAttempt,
        ),
        r1 matches Err(TabunError::Error(t1, m1)) ==> (r2 matches Err(TabunError::Error(t2, m2))
            && t1@ == t2@ && m1@ == m2@),
        r1 matches Err(TabunError::ParseError(_, _)) <==> r2 matches Err(
            TabunError::ParseError(_, _),
        ),
{
}

/// A created-resource identifier in a decoded payload: the field is
/// either a JSON unsigned number or a string of digits.
pub open spec fn id_field_spec(p: Seq<char>, ptr: Seq<char>) -> Option<u64> {
    match json_u64_at(p, ptr) {
        Some(v) => Some(v),
        None => match json_str_at(p, ptr) {
            Some(t) => u64_parse_spec(t),
            None => None,
        },
    }
}

/// Reads an identifier field out of a decoded payload.
pub fn ajax_id_field(payload: &str, ptr: &str) -> (r: Option<u64>)
    ensures
        r == id_field_spec(payload@, ptr@),
{
    match json_u64_field(payload, ptr) {
        Some(v) => Some(v),
        None => match json_str_field(payload, ptr) {
            Some(t) => parse_u64(t.as_str()),
            None => None,
        },
    }
}

} // verus!
