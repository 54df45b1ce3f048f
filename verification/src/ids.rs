//! Micro-parsers for the site's identifier conventions.
//!
//! Markup encodes numeric ids inside attribute values and URLs by fragile
//! positional conventions: an underscore-delimited segment of a vote
//! widget's `id`, the trailing number of a `…<digits>.html` link, the
//! number between `read/` and a final slash of a conversation URL.  Each
//! convention is one named parser here, specified exactly.

use vstd::prelude::*;

verus! {

use vstd::string::StrSliceExecFns;

use crate::text::{
    ends_with, last_segment, last_segment_spec, nth_segment, nth_segment_spec, parse_u32,
    parse_u64, substr, trailing_digits, trailing_digits_exec, u32_parse_spec, u64_parse_spec,
};

/// The wide id carried by underscore-delimited segment `n` of an
/// attribute value, as comment extraction reads it.
pub open spec fn seg_u64_spec(s: Seq<char>, n: int) -> Option<u64> {
    match nth_segment_spec(s, '_', n) {
        Some(t) => u64_parse_spec(t),
        None => None,
    }
}

/// Reads underscore-delimited segment `n` of `s` as a `u64`.
pub fn seg_u64(s: &str, n: usize) -> (r: Option<u64>)
    ensures
        r == seg_u64_spec(s@, n as int),
{
    match nth_segment(s, '_', n) {
        Some(t) => parse_u64(t),
        None => None,
    }
}

/// The id carried by underscore-delimited segment `n` of an attribute
/// value.
pub open spec fn seg_u32_spec(s: Seq<char>, n: int) -> Option<u32> {
    match nth_segment_spec(s, '_', n) {
        Some(t) => u32_parse_spec(t),
        None => None,
    }
}

/// Reads underscore-delimited segment `n` of `s` as a `u32`.
pub fn seg_u32(s: &str, n: usize) -> (r: Option<u32>)
    ensures
        r == seg_u32_spec(s@, n as int),
{
    match nth_segment(s, '_', n) {
        Some(t) => parse_u32(t),
        None => None,
    }
}

/// The id carried by the last underscore-delimited segment, as the
/// vote widget of a blog page encodes it.
pub open spec fn last_seg_u32_spec(s: Seq<char>) -> Option<u32> {
    u32_parse_spec(last_segment_spec(s, '_'))
}

/// Reads the last underscore-delimited segment of `s` as a `u32`.
pub fn last_seg_u32(s: &str) -> (r: Option<u32>)
    ensures
        r == last_seg_u32_spec(s@),
{
    parse_u32(last_segment(s, '_'))
}

/// The digits of a URL ending in `<digits><one char>html`: the
/// convention by which a post's address carries its id.
pub open spec fn html_id_digits(s: Seq<char>) -> Option<Seq<char>> {
    if s.len() >= 6 && ends_with(s, "html"@) {
        let d = trailing_digits(s.subrange(0, s.len() - 5));
        if d.len() > 0 {
            Some(d)
        } else {
            None
        }
    } else {
        None
    }
}

/// The trailing digit run before `.html`, as text.
pub fn html_id_str<'a>(s: &'a str) -> (r: Option<&'a str>)
    ensures
        match r {
            Some(t) => html_id_digits(s@) == Some(t@),
            None => html_id_digits(s@) is None,
        },
{
    let n = s.unicode_len();
    if n < 6 {
        return None;
    }
    if !crate::text::str_ends_with(s, "html") {
        return None;
    }
    let d = trailing_digits_exec(substr(s, 0, n - 5));
    if d.unicode_len() > 0 {
        Some(d)
    } else {
        None
    }
}

/// The post id a redirect `Location` address carries before its
/// `.html` suffix.
pub open spec fn location_post_id(s: Seq<char>) -> Option<u32> {
    match html_id_digits(s) {
        Some(d) => u32_parse_spec(d),
        None => None,
    }
}

/// Reads the post id out of a redirect `Location` address.
pub fn post_id_from_location(s: &str) -> (r: Option<u32>)
    ensures
        r == location_post_id(s@),
{
    match html_id_str(s) {
        Some(d) => parse_u32(d),
        None => None,
    }
}

/// The digits between `read/` and the final slash of a conversation
/// address.
pub open spec fn talk_id_digits(s: Seq<char>) -> Option<Seq<char>> {
    if s.len() >= 2 && s.last() == '/' {
        let body = s.drop_last();
        let d = trailing_digits(body);
        if d.len() > 0 && ends_with(body.subrange(0, body.len() - d.len()), "read/"@) {
            Some(d)
        } else {
            None
        }
    } else {
        None
    }
}

/// The conversation id a redirect `Location` address carries, after
/// `read/` and before the final slash.
pub open spec fn location_talk_id(s: Seq<char>) -> Option<u32> {
    match talk_id_digits(s) {
        Some(d) => u32_parse_spec(d),
        None => None,
    }
}

/// Reads the conversation id out of a redirect `Location` address.
pub fn talk_id_from_location(s: &str) -> (r: Option<u32>)
    ensures
        r == location_talk_id(s@),
{
    let n = s.unicode_len();
    if n < 2 {
        return None;
    }
    if s.get_char(n - 1) != '/' {
        return None;
    }
    let body = substr(s, 0, n - 1);
    proof {
        assert(body@ =~= s@.drop_last());
    }
    let d = trailing_digits_exec(body);
    let dn = d.unicode_len();
    if dn == 0 {
        return None;
    }
    proof {
        assert(trailing_digits(body@).len() <= body@.len()) by {
            crate::text::lemma_trailing_digits_len(body@);
        }
    }
    let head = substr(body, 0, (n - 1) - dn);
    if !crate::text::str_ends_with(head, "read/") {
        return None;
    }
    parse_u32(d)
}

} // verus!
