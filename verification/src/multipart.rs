//! The multipart/form-data encoding of text fields.
//!
//! The server insists on multipart encoding even for plain key/value
//! forms, so the body a mutating request sends is built here: one part
//! per field, each introduced by the boundary and a content-disposition
//! line, and a closing boundary at the end.

use vstd::prelude::*;

verus! {

use crate::text::{pairs_view, str_concat};

/// The encoding of one text field.
pub open spec fn part_encoding(b: Seq<char>, name: Seq<char>, value: Seq<char>) -> Seq<char> {
    "--"@ + b + "\r\n"@ + "Content-Disposition: form-data; name=\""@ + name + "\"\r\n\r\n"@
        + value + "\r\n"@
}

/// The fields' parts, in order.
pub open spec fn parts_concat(b: Seq<char>, fields: Seq<(Seq<char>, Seq<char>)>) -> Seq<char>
    decreases fields.len(),
{
    if fields.len() == 0 {
        Seq::empty()
    } else {
        parts_concat(b, fields.drop_last()) + part_encoding(
            b,
            fields.last().0,
            fields.last().1,
        )
    }
}

/// The whole multipart body: every part, then the closing boundary.
pub open spec fn multipart_body_spec(b: Seq<char>, fields: Seq<(Seq<char>, Seq<char>)>) -> Seq<
    char,
> {
    parts_concat(b, fields) + "--"@ + b + "--\r\n"@
}

/// Encodes text fields as a multipart/form-data body under the given
/// boundary.
pub fn multipart_body(boundary: &str, fields: &Vec<(String, String)>) -> (r: String)
    ensures
        r@ == multipart_body_spec(boundary@, pairs_view(fields@)),
{
    let mut acc = String::new();
    let n = fields.len();
    let mut i: usize = 0;
    proof {
        assert(pairs_view(fields@).subrange(0, 0) =~= Seq::<(Seq<char>, Seq<char>)>::empty());
    }
    while i < n
        invariant
            n == fields@.len(),
            0 <= i <= n,
            acc@ == parts_concat(boundary@, pairs_view(fields@).subrange(0, i as int)),
        decreases n - i,
    {
        let mut part = str_concat("--", boundary);
        part = str_concat(part.as_str(), "\r\n");
        part = str_concat(part.as_str(), "Content-Disposition: form-data; name=\"");
        part = str_concat(part.as_str(), fields[i].0.as_str());
        part = str_concat(part.as_str(), "\"\r\n\r\n");
        part = str_concat(part.as_str(), fields[i].1.as_str());
        part = str_concat(part.as_str(), "\r\n");
        acc = str_concat(acc.as_str(), part.as_str());
        proof {
            let pv = pairs_view(fields@);
            assert(pv.subrange(0, i + 1).drop_last() =~= pv.subrange(0, i as int));
            assert(pv.subrange(0, i + 1).last() == pv[i as int]);
        }
        i = i + 1;
    }
    proof {
        assert(pairs_view(fields@).subrange(0, n as int) =~= pairs_view(fields@));
    }
    let mut tail = str_concat("--", boundary);
    tail = str_concat(tail.as_str(), "--\r\n");
    str_concat(acc.as_str(), tail.as_str())
}

} // verus!
