//! Comment extraction and the comment operations.
//!
//! A comments container holds comment nodes; each carries its numeric id
//! in a vote widget (or, when the viewer may not vote, in its own `id`
//! attribute), its parent in a go-to-parent link, and the owning post
//! either in a per-comment topic link (aggregated feeds) or implicitly in
//! the address the page was fetched from.  A comment marked bad or
//! deleted is a sentinel record with empty text fields.  Any field
//! missing inside a matched comment fails the whole extraction; an absent
//! container just means no comments.

use vstd::prelude::*;

verus! {

use std::collections::HashMap;

use vstd::string::StrSliceExecFns;

use crate::ajax::{ajax_id_field, decode_ajax, decode_ajax_spec, id_field_spec, AjaxDecoded};
use crate::ids::{html_id_digits, html_id_str, seg_u64, seg_u64_spec};
use crate::page::{
    attr_of, find_all, find_first_in, find_first_scoped_under, first_in, first_scoped_under,
    hit, lemma_first_hit_sound, lemma_scope_equiv_in, lemma_scoped_first_sound, pv_class,
    pv_tag, pv_tag_class, scoped_hit, Page, PageNode, Pred, PredView,
};
use crate::session::{HttpMethod, HttpRequest, TClient};
use crate::text::{
    dec_str, digits_value, has_sub, i32_parse_spec, last_segment, last_segment_spec,
    lemma_trailing_digits_digits, nth_segment, nth_segment_spec, parse_digits_u64, parse_i32,
    parse_u64, str_contains, u32_to_dec, u64_parse_spec, u64_to_dec,
};
use crate::{Comment, CommentModel, CommentType, TabunError, TabunResult};

broadcast use vstd::std_specs::hash::group_hash_axioms;

/// The predicate for a comments container.
pub open spec fn comments_container() -> PredView {
    pv_tag_class("div"@, "comments"@)
}

/// The predicate for one comment node.
pub open spec fn comment_node() -> PredView {
    pv_class("comment"@)
}

/// `i` is a comment node: it lies inside some comments container.
pub open spec fn is_comment_node(nodes: Seq<PageNode>, i: int) -> bool {
    scoped_hit(nodes, comments_container(), comment_node(), i)
}

/// The view of the optional fetch address.
pub open spec fn opt_view(url: Option<&str>) -> Option<Seq<char>> {
    match url {
        Some(u) => Some(u@),
        None => None,
    }
}

/// The post id an address carries: its trailing number before `.html`,
/// zero when the address has none, and a failure when the number is too
/// large to read.
pub open spec fn post_id_from_href(h: Seq<char>) -> Result<u64, ()> {
    match html_id_digits(h) {
        Some(d) => if digits_value(d) <= u64::MAX {
            Ok(digits_value(d) as u64)
        } else {
            Err(())
        },
        None => Ok(0),
    }
}

/// Reads the post id out of an address.
fn href_post_id(h: &str) -> (r: Result<u64, ()>)
    ensures
        r == post_id_from_href(h@),
{
    match html_id_str(h) {
        Some(d) => match parse_digits_u64(d) {
            Some(v) => Ok(v),
            None => {
                proof {
                    lemma_trailing_digits_digits(h@.subrange(0, h@.len() - 5));
                }
                Err(())
            },
        },
        None => Ok(0),
    }
}

/// The owning post of comment `c`: from its topic link when it has one,
/// else from the fetch address.
pub open spec fn comment_post_id_of(
    nodes: Seq<PageNode>,
    c: int,
    url: Option<Seq<char>>,
) -> Result<u64, ()> {
    match first_in(nodes, c, pv_class("comment-path-topic"@)) {
        Some(p) => match attr_of(nodes[p], "href"@) {
            Some(h) => post_id_from_href(h),
            None => Err(()),
        },
        None => match url {
            Some(u) => post_id_from_href(u),
            None => Ok(0),
        },
    }
}

/// The id of comment `c`: the fourth underscore segment of its vote
/// widget's id, else the third segment of its own id attribute.
pub open spec fn comment_id_of(nodes: Seq<PageNode>, c: int) -> Result<u64, ()> {
    match first_in(nodes, c, pv_tag_class("li"@, "vote"@)) {
        Some(v) => match attr_of(nodes[v], "id"@) {
            Some(a) => match seg_u64_spec(a, 3) {
                Some(x) => Ok(x),
                None => Err(()),
            },
            None => Err(()),
        },
        None => match attr_of(nodes[c], "id"@) {
            Some(a) => match seg_u64_spec(a, 2) {
                Some(x) => Ok(x),
                None => Err(()),
            },
            None => Err(()),
        },
    }
}

/// The parent of comment `c`: the number after the last slash of its
/// go-to-parent link, zero for a top-level comment.
pub open spec fn comment_parent_of(nodes: Seq<PageNode>, c: int) -> Result<u64, ()> {
    match first_in(nodes, c, pv_class("goto-comment-parent"@)) {
        Some(g) => match first_in(nodes, g, pv_tag("a"@)) {
            Some(a) => match attr_of(nodes[a], "href"@) {
                Some(h) => match u64_parse_spec(last_segment_spec(h, '/')) {
                    Some(x) => Ok(x),
                    None => Err(()),
                },
                None => Err(()),
            },
            None => Err(()),
        },
        None => Ok(0),
    }
}

/// The rendered body of comment `c`.
pub open spec fn comment_body_of(nodes: Seq<PageNode>, c: int) -> Result<Seq<char>, ()> {
    match first_in(nodes, c, pv_tag_class("div"@, "text"@)) {
        Some(b) => Ok(nodes[b].inner_html@),
        None => Err(()),
    }
}

/// The author of comment `c`: the fifth slash segment of the profile
/// link inside its author item.
pub open spec fn comment_author_of(nodes: Seq<PageNode>, c: int) -> Result<Seq<char>, ()> {
    match first_scoped_under(nodes, c, pv_tag_class("li"@, "comment-author"@), pv_tag("a"@)) {
        Some(a) => match attr_of(nodes[a], "href"@) {
            Some(h) => match nth_segment_spec(h, '/', 4) {
                Some(seg) => Ok(seg),
                None => Err(()),
            },
            None => Err(()),
        },
        None => Err(()),
    }
}

/// The timestamp of comment `c`: the datetime attribute of its time
/// element.
pub open spec fn comment_date_of(nodes: Seq<PageNode>, c: int) -> Result<Seq<char>, ()> {
    match first_in(nodes, c, pv_tag("time"@)) {
        Some(t) => match attr_of(nodes[t], "datetime"@) {
            Some(d) => Ok(d),
            None => Err(()),
        },
        None => Err(()),
    }
}

/// The vote balance of comment `c`, zero when the page shows none.
pub open spec fn comment_votes_of(nodes: Seq<PageNode>, c: int) -> Result<i32, ()> {
    match first_in(nodes, c, pv_tag_class("span"@, "vote-count"@)) {
        Some(v) => match i32_parse_spec(nodes[v].text@) {
            Some(x) => Ok(x),
            None => Err(()),
        },
        None => Ok(0),
    }
}

/// The sentinel record for a deleted comment.
pub open spec fn deleted_comment(id: u64, post_id: u64) -> CommentModel {
    CommentModel {
        body: Seq::empty(),
        id: id,
        author: Seq::empty(),
        date: Seq::empty(),
        votes: 0,
        parent: 0,
        post_id: post_id,
        deleted: true,
    }
}

/// What extracting comment `c` yields: the full record, the deleted
/// sentinel, or a failure when a required field is missing.
pub open spec fn comment_of(
    nodes: Seq<PageNode>,
    c: int,
    url: Option<Seq<char>>,
) -> Result<CommentModel, ()> {
    match comment_post_id_of(nodes, c, url) {
        Err(_) => Err(()),
        Ok(post_id) => match comment_id_of(nodes, c) {
            Err(_) => Err(()),
            Ok(id) => match attr_of(nodes[c], "class"@) {
                None => Err(()),
                Some(cl) => if has_sub(cl, "comment-bad"@) || has_sub(cl, "comment-deleted"@) {
                    Ok(deleted_comment(id, post_id))
                } else {
                    match comment_parent_of(nodes, c) {
                        Err(_) => Err(()),
                        Ok(parent) => match comment_body_of(nodes, c) {
                            Err(_) => Err(()),
                            Ok(body) => match comment_author_of(nodes, c) {
                                Err(_) => Err(()),
                                Ok(author) => match comment_date_of(nodes, c) {
                                    Err(_) => Err(()),
                                    Ok(date) => match comment_votes_of(nodes, c) {
                                        Err(_) => Err(()),
                                        Ok(votes) => Ok(
                                            CommentModel {
                                                body: body,
                                                id: id,
                                                author: author,
                                                date: date,
                                                votes: votes,
                                                parent: parent,
                                                post_id: post_id,
                                                deleted: false,
                                            },
                                        ),
                                    },
                                },
                            },
                        },
                    }
                },
            },
        },
    }
}

fn missing(what: &str) -> (r: TabunError)
    ensures
        r is ParseError,
{
    TabunError::ParseError(String::from_str("comments"), what.to_owned())
}

/// Extracts the comment at node `c`, against the optional fetch address.
pub fn extract_comment(page: &Page, c: usize, url: Option<&str>) -> (r: Result<
    Comment,
    TabunError,
>)
    requires
        c < page.nodes@.len(),
    ensures
        match r {
            Ok(cm) => comment_of(page.nodes@, c as int, opt_view(url)) == Ok::<CommentModel, ()>(cm@),
            Err(e) => comment_of(page.nodes@, c as int, opt_view(url)) is Err && e is ParseError,
        },
{
    let ghost nodes = page.nodes@;
    let ghost uv = opt_view(url);

    // The owning post.
    let href: Option<String> = match find_first_in(page, c, &Pred::by_class("comment-path-topic"))
        {
        Some(p) => {
            proof {
                lemma_first_hit_sound(nodes, Some(seq![c]), pv_class("comment-path-topic"@), p as int);
            }
            match page.attr(p, "href") {
                Some(h) => Some(h),
                None => {
                    return Err(missing("comment topic link lacks an address"));
                },
            }
        },
        None => match url {
            Some(u) => Some(u.to_owned()),
            None => None,
        },
    };
    let post_id: u64 = match &href {
        Some(h) => match href_post_id(h.as_str()) {
            Ok(v) => v,
            Err(_) => {
                return Err(missing("comment post id does not fit"));
            },
        },
        None => 0,
    };
    proof {
        assert(comment_post_id_of(nodes, c as int, uv) == Ok::<u64, ()>(post_id));
    }

    // The comment's own id.
    let id: u64 = match find_first_in(page, c, &Pred::tag_class("li", "vote")) {
        Some(v) => {
            proof {
                lemma_first_hit_sound(nodes, Some(seq![c]), pv_tag_class("li"@, "vote"@), v as int);
            }
            match page.attr(v, "id") {
                Some(a) => match seg_u64(a.as_str(), 3) {
                    Some(x) => x,
                    None => {
                        return Err(missing("comment vote widget id is malformed"));
                    },
                },
                None => {
                    return Err(missing("comment vote widget lacks an id"));
                },
            }
        },
        None => match page.attr(c, "id") {
            Some(a) => match seg_u64(a.as_str(), 2) {
                Some(x) => x,
                None => {
                    return Err(missing("comment id attribute is malformed"));
                },
            },
            None => {
                return Err(missing("comment lacks an id attribute"));
            },
        },
    };
    proof {
        assert(comment_id_of(nodes, c as int) == Ok::<u64, ()>(id));
    }

    // Deleted comments stop here with the sentinel record.
    let cl = match page.attr(c, "class") {
        Some(cl) => cl,
        None => {
            return Err(missing("comment lacks a class attribute"));
        },
    };
    if str_contains(cl.as_str(), "comment-bad") || str_contains(cl.as_str(), "comment-deleted") {
        let cm = Comment {
            body: String::new(),
            id: id,
            author: String::new(),
            date: String::new(),
            votes: 0,
            parent: 0,
            post_id: post_id,
            deleted: true,
        };
        proof {
            assert(cm@ == deleted_comment(id, post_id));
        }
        return Ok(cm);
    }

    // The parent comment.
    let parent: u64 = match find_first_in(page, c, &Pred::by_class("goto-comment-parent")) {
        Some(g) => {
            proof {
                lemma_first_hit_sound(
                    nodes,
                    Some(seq![c]),
                    pv_class("goto-comment-parent"@),
                    g as int,
                );
            }
            match find_first_in(page, g, &Pred::by_tag("a")) {
                Some(a) => {
                    proof {
                        lemma_first_hit_sound(nodes, Some(seq![g]), pv_tag("a"@), a as int);
                    }
                    match page.attr(a, "href") {
                        Some(h) => match parse_u64(last_segment(h.as_str(), '/')) {
                            Some(x) => x,
                            None => {
                                return Err(missing("comment parent link is malformed"));
                            },
                        },
                        None => {
                            return Err(missing("comment parent link lacks an address"));
                        },
                    }
                },
                None => {
                    return Err(missing("comment parent marker lacks a link"));
                },
            }
        },
        None => 0,
    };
    proof {
        assert(comment_parent_of(nodes, c as int) == Ok::<u64, ()>(parent));
    }

    // The rendered body.
    let body: String = match find_first_in(page, c, &Pred::tag_class("div", "text")) {
        Some(b) => {
            proof {
                lemma_first_hit_sound(nodes, Some(seq![c]), pv_tag_class("div"@, "text"@), b as int);
            }
            page.inner_html_of(b)
        },
        None => {
            return Err(missing("comment lacks a body"));
        },
    };

    // The author.
    let author: String = match find_first_scoped_under(
        page,
        c,
        &Pred::tag_class("li", "comment-author"),
        &Pred::by_tag("a"),
    ) {
        Some(a) => {
            proof {
                lemma_scoped_first_sound(
                    nodes,
                    Some(seq![c]),
                    pv_tag_class("li"@, "comment-author"@),
                    pv_tag("a"@),
                    a as int,
                );
            }
            match page.attr(a, "href") {
                Some(h) => match nth_segment(h.as_str(), '/', 4) {
                    Some(seg) => seg.to_owned(),
                    None => {
                        return Err(missing("comment author link is malformed"));
                    },
                },
                None => {
                    return Err(missing("comment author link lacks an address"));
                },
            }
        },
        None => {
            return Err(missing("comment lacks an author"));
        },
    };

    // The timestamp.
    let date: String = match find_first_in(page, c, &Pred::by_tag("time")) {
        Some(t) => {
            proof {
                lemma_first_hit_sound(nodes, Some(seq![c]), pv_tag("time"@), t as int);
            }
            match page.attr(t, "datetime") {
                Some(d) => d,
                None => {
                    return Err(missing("comment time lacks a datetime"));
                },
            }
        },
        None => {
            return Err(missing("comment lacks a timestamp"));
        },
    };

    // The vote balance.
    let votes: i32 = match find_first_in(page, c, &Pred::tag_class("span", "vote-count")) {
        Some(v) => {
            proof {
                lemma_first_hit_sound(
                    nodes,
                    Some(seq![c]),
                    pv_tag_class("span"@, "vote-count"@),
                    v as int,
                );
            }
            match parse_i32(page.text_of(v).as_str()) {
                Some(x) => x,
                None => {
                    return Err(missing("comment vote balance is malformed"));
                },
            }
        },
        None => 0,
    };

    let cm = Comment {
        body: body,
        id: id,
        author: author,
        date: date,
        votes: votes,
        parent: parent,
        post_id: post_id,
        deleted: false,
    };
    proof {
        assert(comment_of(nodes, c as int, uv) == Ok::<CommentModel, ()>(cm@));
    }
    Ok(cm)
}

/// Extracts every comment of the page into a map keyed by comment id.
/// The fetch address, when given, supplies the owning post for comments
/// without their own topic link.  A page without comment nodes yields an
/// empty map; a malformed comment fails the whole call.
pub fn doc_get_comments(page: &Page, url: Option<&str>) -> (r: TabunResult<HashMap<u64, Comment>>)
    ensures
        match r {
            Ok(m) => {
                &&& forall|i: int|
                    is_comment_node(page.nodes@, i) ==> #[trigger] comment_of(
                        page.nodes@,
                        i,
                        opt_view(url),
                    ) is Ok
                &&& forall|i: int|
                    is_comment_node(page.nodes@, i) ==> (#[trigger] comment_of(
                        page.nodes@,
                        i,
                        opt_view(url),
                    ) matches Ok(cm) ==> m@.contains_key(cm.id))
                &&& forall|k: u64|
                    #[trigger] m@.contains_key(k) ==> exists|i: int|
                        is_comment_node(page.nodes@, i) && (#[trigger] comment_of(
                            page.nodes@,
                            i,
                            opt_view(url),
                        ) matches Ok(cm) && cm.id == k && m@[k]@ == cm)
            },
            Err(e) => e is ParseError && exists|i: int|
                is_comment_node(page.nodes@, i) && #[trigger] comment_of(
                    page.nodes@,
                    i,
                    opt_view(url),
                ) is Err,
        },
{
    let ghost nodes = page.nodes@;
    let ghost uv = opt_view(url);
    let n = page.nodes.len();
    let containers = find_all(page, None, &Pred::tag_class("div", "comments"));
    let comms = find_all(page, Some(&containers), &Pred::by_class("comment"));
    proof {
        lemma_scope_equiv_in(nodes, None, comments_container(), comment_node(), containers@);
    }
    let mut ret: HashMap<u64, Comment> = HashMap::new();
    let mut idx: usize = 0;
    while idx < comms.len()
        invariant
            nodes == page.nodes@,
            uv == opt_view(url),
            nodes.len() <= usize::MAX,
            forall|t: int| 0 <= t < comms@.len() ==> hit(
                nodes,
                Some(containers@),
                comment_node(),
                #[trigger] comms@[t] as int,
            ),
            forall|i: int| 0 <= i < nodes.len() && hit(nodes, Some(containers@), comment_node(), i)
                ==> comms@.contains(i as usize),
            forall|i: int| hit(nodes, Some(containers@), comment_node(), i) <==> is_comment_node(
                nodes,
                i,
            ),
            0 <= idx <= comms@.len(),
            forall|t: int| 0 <= t < idx ==> #[trigger] comment_of(
                nodes,
                comms@[t] as int,
                uv,
            ) is Ok,
            forall|t: int| 0 <= t < idx ==> (#[trigger] comment_of(
                nodes,
                comms@[t] as int,
                uv,
            ) matches Ok(cm) ==> ret@.contains_key(cm.id)),
            forall|k: u64| #[trigger] ret@.contains_key(k) ==> exists|t: int|
                0 <= t < idx && (#[trigger] comment_of(nodes, comms@[t] as int, uv) matches Ok(cm)
                    && cm.id == k && ret@[k]@ == cm),
        decreases comms@.len() - idx,
    {
        let c = comms[idx];
        proof {
            assert(hit(nodes, Some(containers@), comment_node(), c as int));
        }
        match extract_comment(page, c, url) {
            Ok(cm) => {
                let ghost cmv = cm@;
                let ghost old_ret = ret@;
                let key = cm.id;
                ret.insert(key, cm);
                proof {
                    assert(ret@ == old_ret.insert(key, cm));
                    assert forall|k: u64| #[trigger] ret@.contains_key(k) implies exists|t: int|
                        0 <= t < idx + 1 && (#[trigger] comment_of(
                            nodes,
                            comms@[t] as int,
                            uv,
                        ) matches Ok(cm2) && cm2.id == k && ret@[k]@ == cm2) by {
                        if k == key {
                            assert(comment_of(nodes, comms@[idx as int] as int, uv) == Ok::<CommentModel, ()>(cmv));
                            assert(ret@[k] == cm);
                        } else {
                            assert(old_ret.contains_key(k));
                            let t = choose|t: int|
                                0 <= t < idx && (#[trigger] comment_of(
                                    nodes,
                                    comms@[t] as int,
                                    uv,
                                ) matches Ok(cm2) && cm2.id == k && old_ret[k]@ == cm2);
                            assert(ret@[k] == old_ret[k]);
                        }
                    }
                }
            },
            Err(e) => {
                proof {
                    assert(is_comment_node(nodes, c as int));
                    assert(comment_of(nodes, c as int, uv) is Err);
                }
                return Err(e);
            },
        }
        idx = idx + 1;
    }
    proof {
        assert forall|i: int| is_comment_node(nodes, i) implies #[trigger] comment_of(
            nodes,
            i,
            uv,
        ) is Ok && (comment_of(nodes, i, uv) matches Ok(cm) ==> ret@.contains_key(cm.id)) by {
            assert(hit(nodes, Some(containers@), comment_node(), i));
            assert(comms@.contains(i as usize));
            let t = choose|t: int| 0 <= t < comms@.len() && comms@[t] == i as usize;
            assert(comment_of(nodes, comms@[t] as int, uv) is Ok);
        }
    }
    Ok(ret)
}

/// A deleted comment carries no data: its body, author and date are
/// empty, its vote balance zero, and it reads as a top-level reply.
pub proof fn lemma_deleted_comment_empty(nodes: Seq<PageNode>, c: int, url: Option<Seq<char>>)
    requires
        comment_of(nodes, c, url) matches Ok(cm) && cm.deleted,
    ensures
        comment_of(nodes, c, url) matches Ok(cm) && cm.body == Seq::<char>::empty() && cm.author
            == Seq::<char>::empty() && cm.date == Seq::<char>::empty() && cm.votes == 0i32
            && cm.parent == 0u64,
{
}

/// A comment not marked deleted carries real data: whenever the markup
/// fields behind it are non-empty and its id is non-zero, the extracted
/// record's body, author, date and id are too.  (A page may render an
/// empty body or a zero id; those inputs are excluded here.)
pub proof fn lemma_live_comment_fields(nodes: Seq<PageNode>, c: int, url: Option<Seq<char>>)
    requires
        comment_of(nodes, c, url) matches Ok(cm) && !cm.deleted,
        comment_body_of(nodes, c) matches Ok(b) && b.len() > 0,
        comment_author_of(nodes, c) matches Ok(a) && a.len() > 0,
        comment_date_of(nodes, c) matches Ok(d) && d.len() > 0,
        comment_id_of(nodes, c) matches Ok(i) && i > 0,
    ensures
        comment_of(nodes, c, url) matches Ok(cm) && cm.body.len() > 0 && cm.author.len() > 0
            && cm.date.len() > 0 && cm.id > 0,
{
}

/// Comments extracted from a single post's listing — a page where no
/// node carries a per-comment topic link — all carry the post id the
/// fetch address implies.
pub proof fn lemma_uniform_post_id(nodes: Seq<PageNode>, url: Seq<char>, c: int, pid: u64)
    requires
        forall|i: int| !hit(nodes, None, pv_class("comment-path-topic"@), i),
        post_id_from_href(url) == Ok::<u64, ()>(pid),
        comment_of(nodes, c, Some(url)) matches Ok(cm),
    ensures
        comment_of(nodes, c, Some(url)) matches Ok(cm) && cm.post_id == pid,
{
    if first_in(nodes, c, pv_class("comment-path-topic"@)) is Some {
        let i = first_in(nodes, c, pv_class("comment-path-topic"@));
        lemma_first_hit_sound(
            nodes,
            Some(seq![c as usize]),
            pv_class("comment-path-topic"@),
            i->Some_0,
        );
        assert(hit(nodes, None, pv_class("comment-path-topic"@), i->Some_0));
    }
}

impl TClient {
    /// Builds the call that posts a reply under a post or inside a
    /// conversation; a zero `reply` answers the container itself.
    pub fn comment_request(&self, post_id: u32, body: &str, reply: u64, typ: CommentType) -> (r:
        HttpRequest)
        ensures
            r.method == HttpMethod::PostMultipart,
            typ is Post ==> r.url@ == "/blog/ajaxaddcomment/"@,
            typ is Talk ==> r.url@ == "/talk/ajaxaddcomment/"@,
            r.referer is None,
            r.fields@.len() == 4,
            r.fields@[0].0@ == "security_ls_key"@ && r.fields@[0].1@ == self.security_ls_key@,
            r.fields@[1].0@ == "comment_text"@ && r.fields@[1].1@ == body@,
            r.fields@[2].0@ == "cmt_target_id"@ && r.fields@[2].1@ == dec_str(post_id as nat),
            r.fields@[3].0@ == "reply"@ && r.fields@[3].1@ == dec_str(reply as nat),
    {
        let mut fields: Vec<(String, String)> = Vec::new();
        fields.push(("comment_text".to_owned(), body.to_owned()));
        fields.push(("cmt_target_id".to_owned(), u32_to_dec(post_id)));
        fields.push(("reply".to_owned(), u64_to_dec(reply)));
        let url = match typ {
            CommentType::Post => "/blog/ajaxaddcomment/",
            CommentType::Talk => "/talk/ajaxaddcomment/",
        };
        self.ajax_request(url, &fields)
    }
}

/// Decides what the reply to a posted comment means: the new comment's
/// id from the payload, or the decoded error; a payload without a usable
/// id is a parse error.
pub fn comment_response(raw: &str) -> (r: TabunResult<u64>)
    ensures
        match r {
            Ok(v) => decode_ajax_spec(raw@) matches AjaxDecoded::Object(p) && id_field_spec(
                p,
                "/sCommentId"@,
            ) == Some(v),
            Err(e) => match e {
                TabunError::HackingAttempt => decode_ajax_spec(raw@) is Hacking,
                TabunError::Error(t, m) => decode_ajax_spec(raw@) == AjaxDecoded::Envelope(t@, m@),
                TabunError::ParseError(_, _) => decode_ajax_spec(raw@) is Malformed || (
                decode_ajax_spec(raw@) matches AjaxDecoded::Object(p) && id_field_spec(
                    p,
                    "/sCommentId"@,
                ) is None),
                _ => false,
            },
        },
{
    let payload = match decode_ajax(raw) {
        Ok(p) => p,
        Err(e) => {
            return Err(e);
        },
    };
    match ajax_id_field(payload.as_str(), "/sCommentId") {
        Some(v) => Ok(v),
        None => Err(TabunError::ParseError(
            String::from_str("comments"),
            String::from_str("Server did not return sCommentId"),
        )),
    }
}

} // verus!
