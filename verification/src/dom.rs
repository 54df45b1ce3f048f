//! The bridge from parsed HTML to the page model.
//!
//! Parsing HTML is the one computation this crate leaves to the outside:
//! the `select` crate turns markup text into a node arena.  What that
//! parser produces cannot be restated here, but it is a function of the
//! markup alone, so the arena's contents are given a name, each accessor
//! is a trusted wrapper speaking of that name, and the page model is then
//! built from the accessors by verified code.

use vstd::prelude::*;

verus! {

use vstd::string::StrSliceExecFns;

use select::document::Document;

use crate::page::{Page, PageNode};

/// What one parsed node holds: tag (absent for text and comment nodes),
/// attributes, combined text, serialized inner markup, and parent index.
pub type DocNode = (Option<Seq<char>>, Seq<(Seq<char>, Seq<char>)>, Seq<char>, Seq<char>, Option<
    usize,
>);

#[verifier::external_type_specification]
#[verifier::external_body]
pub struct ExDocument(Document);

/// The contents of a parsed document's node arena, in document order.
pub uninterp spec fn doc_model(d: Document) -> Seq<DocNode>;

/// The node arena the HTML parser produces for a given text; a function
/// of the text alone.
pub uninterp spec fn dom_of(s: Seq<char>) -> Seq<DocNode>;

/// Relies on select's `Document::from(&str)`: parsing is deterministic
/// in the markup text.
#[verifier::external_body]
pub fn parse_document(html: &str) -> (r: Document)
    ensures
        doc_model(r) == dom_of(html@),
{
    Document::from(html)
}

/// Relies on the `nodes` arena of select's `Document`: how many nodes
/// the document holds.
#[verifier::external_body]
fn doc_len(d: &Document) -> (r: usize)
    ensures
        r == doc_model(*d).len(),
{
    d.nodes.len()
}

/// Relies on select's `Node::name`: the element name of node `i`, absent
/// for text and comment nodes.
#[verifier::external_body]
fn node_tag(d: &Document, i: usize) -> (r: Option<String>)
    requires
        i < doc_model(*d).len(),
    ensures
        r matches Some(t) ==> doc_model(*d)[i as int].0 == Some(t@),
        r is None ==> doc_model(*d)[i as int].0 is None,
{
    d.nth(i).unwrap().name().map(|s| s.to_string())
}

/// Relies on select's `Node::attrs`: the attributes of node `i` in
/// document order.
#[verifier::external_body]
fn node_attrs(d: &Document, i: usize) -> (r: Vec<(String, String)>)
    requires
        i < doc_model(*d).len(),
    ensures
        r@.len() == doc_model(*d)[i as int].1.len(),
        forall|j: int|
            0 <= j < r@.len() ==> (#[trigger] r@[j]).0@ == doc_model(*d)[i as int].1[j].0
                && r@[j].1@ == doc_model(*d)[i as int].1[j].1,
{
    d.nth(i).unwrap().attrs().map(|(k, v)| (k.to_string(), v.to_string())).collect()
}

/// Relies on select's `Node::text`: the combined text of node `i` and
/// its descendants.
#[verifier::external_body]
fn node_text(d: &Document, i: usize) -> (r: String)
    requires
        i < doc_model(*d).len(),
    ensures
        r@ == doc_model(*d)[i as int].2,
{
    d.nth(i).unwrap().text()
}

/// Relies on select's `Node::inner_html`: node `i`'s children
/// serialized back to markup.
#[verifier::external_body]
fn node_inner_html(d: &Document, i: usize) -> (r: String)
    requires
        i < doc_model(*d).len(),
    ensures
        r@ == doc_model(*d)[i as int].3,
{
    d.nth(i).unwrap().inner_html()
}

/// Relies on the `parent` link of select's node arena: the parent of
/// node `i`.
#[verifier::external_body]
fn node_parent(d: &Document, i: usize) -> (r: Option<usize>)
    requires
        i < doc_model(*d).len(),
    ensures
        r == doc_model(*d)[i as int].4,
{
    d.nodes[i].parent
}

/// Node `n` of the page model carries what arena entry `t` holds.
pub open spec fn node_corresponds(n: PageNode, t: DocNode) -> bool {
    &&& match n.tag {
        Some(nt) => t.0 == Some(nt@),
        None => t.0 is None,
    }
    &&& n.attrs@.len() == t.1.len()
    &&& forall|j: int|
        0 <= j < t.1.len() ==> (#[trigger] n.attrs@[j]).0@ == t.1[j].0 && n.attrs@[j].1@ == t.1[j].1
    &&& n.text@ == t.2
    &&& n.inner_html@ == t.3
    &&& n.parent == t.4
}

/// The page model carries the arena node for node.
pub open spec fn page_matches(nodes: Seq<PageNode>, m: Seq<DocNode>) -> bool {
    nodes.len() == m.len() && forall|i: int|
        0 <= i < m.len() ==> node_corresponds(#[trigger] nodes[i], m[i])
}

/// Builds the page model from a parsed document, node for node.
pub fn build_page(d: &Document) -> (r: Page)
    ensures
        page_matches(r.nodes@, doc_model(*d)),
{
    let n = doc_len(d);
    let mut nodes: Vec<PageNode> = Vec::new();
    let mut i: usize = 0;
    while i < n
        invariant
            n == doc_model(*d).len(),
            0 <= i <= n,
            nodes@.len() == i,
            forall|t: int|
                0 <= t < i ==> node_corresponds(#[trigger] nodes@[t], doc_model(*d)[t]),
        decreases n - i,
    {
        let node = PageNode {
            tag: node_tag(d, i),
            attrs: node_attrs(d, i),
            text: node_text(d, i),
            inner_html: node_inner_html(d, i),
            parent: node_parent(d, i),
        };
        nodes.push(node);
        i = i + 1;
    }
    Page { nodes }
}

/// Parses markup text into the page model the extractors read.
pub fn parse_page(html: &str) -> (r: Page)
    ensures
        page_matches(r.nodes@, dom_of(html@)),
{
    let d = parse_document(html);
    build_page(&d)
}

} // verus!
