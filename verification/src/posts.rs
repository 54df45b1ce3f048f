//! Post extraction and the post operations.
//!
//! A post's id sits in its vote widget; title, body, date, tag links,
//! comment count and author each come from their own selectors.  On a
//! list page the same fields are read inside each `article`; the comment
//! count there hides in an info item rather than a counter span.  Posts
//! are created and edited by multipart form posts whose reply is a
//! redirect carrying the new post's id in its address.

use vstd::prelude::*;

verus! {

use vstd::string::StrSliceExecFns;

use crate::ids::{last_seg_u32, last_seg_u32_spec, seg_u32, seg_u32_spec};
use crate::page::{
    attr_of, ff_scoped_within, ff_within, find_all, find_all_within, find_first_in,
    find_first_scoped, first_hit_of, first_in, first_scoped_hit, first_scoped_within,
    first_within, found_all, hit, lemma_first_hit_sound, lemma_scoped_first_sound, pv_attr,
    pv_tag, pv_tag_attr, pv_tag_class, Page, PageNode, Pred,
};
use crate::session::{HttpMethod, HttpRequest, TClient, HOST_URL};
use crate::text::{
    comma_joined, dec_str, parse_u32, split_all, split_all_exec, str_concat, str_trim,
    strs_view, trimmed, u32_parse_spec, u32_to_dec,
};
use crate::{EditablePost, EditablePostModel, Post, PostModel, TabunError, TabunResult};

/// The scope of one article on a list page, or the whole page.
pub open spec fn roots_of_scope(scope: Option<int>) -> Option<Seq<usize>> {
    match scope {
        Some(a) => Some(seq![a as usize]),
        None => None,
    }
}

/// The id of the post in `scope`: the fourth underscore segment of its
/// vote widget's id.
pub open spec fn post_id_of(nodes: Seq<PageNode>, scope: Option<int>) -> Result<u32, ()> {
    match first_within(nodes, scope, pv_tag_class("div"@, "vote-topic"@)) {
        Some(v) => match attr_of(nodes[v], "id"@) {
            Some(a) => match seg_u32_spec(a, 3) {
                Some(x) => Ok(x),
                None => Err(()),
            },
            None => Err(()),
        },
        None => Err(()),
    }
}

/// The title of the post in `scope`.
pub open spec fn post_title_of(nodes: Seq<PageNode>, scope: Option<int>) -> Result<Seq<char>, ()> {
    match first_within(nodes, scope, pv_tag_class("h1"@, "topic-title"@)) {
        Some(t) => Ok(nodes[t].text@),
        None => Err(()),
    }
}

/// The rendered body of the post in `scope`, trimmed.
pub open spec fn post_body_of(nodes: Seq<PageNode>, scope: Option<int>) -> Result<Seq<char>, ()> {
    match first_within(nodes, scope, pv_tag_class("div"@, "topic-content"@)) {
        Some(b) => Ok(trimmed(nodes[b].inner_html@)),
        None => Err(()),
    }
}

/// The timestamp of the post in `scope`: the datetime of the time
/// element inside its date item.
pub open spec fn post_date_of(nodes: Seq<PageNode>, scope: Option<int>) -> Result<Seq<char>, ()> {
    match first_scoped_within(nodes, scope, pv_tag_class("li"@, "topic-info-date"@), pv_tag("time"@)) {
        Some(t) => match attr_of(nodes[t], "datetime"@) {
            Some(d) => Ok(d),
            None => Err(()),
        },
        None => Err(()),
    }
}

/// The author of the post in `scope`: the text of the author link inside
/// its info block.
pub open spec fn post_author_of(nodes: Seq<PageNode>, scope: Option<int>) -> Result<
    Seq<char>,
    (),
> {
    match first_scoped_within(
        nodes,
        scope,
        pv_tag_class("div"@, "topic-info"@),
        pv_tag_attr("a"@, "rel"@, "author"@),
    ) {
        Some(t) => Ok(nodes[t].text@),
        None => Err(()),
    }
}

/// The comment count of a single post page: the dedicated counter span.
pub open spec fn post_comments_single(nodes: Seq<PageNode>) -> Result<u32, ()> {
    match first_hit_of(nodes, None, pv_tag_attr("span"@, "id"@, "count-comments"@)) {
        Some(c) => match u32_parse_spec(nodes[c].text@) {
            Some(v) => Ok(v),
            None => Err(()),
        },
        None => Err(()),
    }
}

/// The comment count of the article `a` on a list page: the span inside
/// its comments info item.
pub open spec fn post_comments_list(nodes: Seq<PageNode>, a: int) -> Result<u32, ()> {
    match first_in(nodes, a, pv_tag_class("li"@, "topic-info-comments"@)) {
        Some(el) => match first_in(nodes, el, pv_tag("span"@)) {
            Some(c) => match u32_parse_spec(nodes[c].text@) {
                Some(v) => Ok(v),
                None => Err(()),
            },
            None => Err(()),
        },
        None => Err(()),
    }
}

/// The comment count of the post in `scope`, by whichever convention the
/// page uses.
pub open spec fn post_comments_of(nodes: Seq<PageNode>, scope: Option<int>) -> Result<u32, ()> {
    match scope {
        Some(a) => post_comments_list(nodes, a),
        None => post_comments_single(nodes),
    }
}

/// `tags` is exactly the texts of the tag links in `scope`, in document
/// order.
pub open spec fn tags_of_match(
    nodes: Seq<PageNode>,
    scope: Option<int>,
    tags: Seq<Seq<char>>,
) -> bool {
    exists|idxs: Seq<usize>|
        {
            &&& #[trigger] found_all(
                nodes,
                roots_of_scope(scope),
                pv_tag_attr("a"@, "rel"@, "tag"@),
                idxs,
            )
            &&& tags.len() == idxs.len()
            &&& forall|j: int| 0 <= j < idxs.len() ==> tags[j] == nodes[#[trigger] idxs[j] as int].text@
        }
}

/// Every field the post record in `scope` needs is present.
pub open spec fn post_fields_ok(nodes: Seq<PageNode>, scope: Option<int>) -> bool {
    &&& post_id_of(nodes, scope) is Ok
    &&& post_title_of(nodes, scope) is Ok
    &&& post_body_of(nodes, scope) is Ok
    &&& post_date_of(nodes, scope) is Ok
    &&& post_author_of(nodes, scope) is Ok
    &&& post_comments_of(nodes, scope) is Ok
}

/// `pm` is the post record extracted from `scope`.
pub open spec fn post_match(nodes: Seq<PageNode>, scope: Option<int>, pm: PostModel) -> bool {
    &&& post_id_of(nodes, scope) == Ok::<u32, ()>(pm.id)
    &&& post_title_of(nodes, scope) == Ok::<Seq<char>, ()>(pm.title)
    &&& post_body_of(nodes, scope) == Ok::<Seq<char>, ()>(pm.body)
    &&& post_date_of(nodes, scope) == Ok::<Seq<char>, ()>(pm.date)
    &&& post_author_of(nodes, scope) == Ok::<Seq<char>, ()>(pm.author)
    &&& post_comments_of(nodes, scope) == Ok::<u32, ()>(pm.comments_count)
    &&& tags_of_match(nodes, scope, pm.tags)
}

fn missing(what: &str) -> (r: TabunError)
    ensures
        r is ParseError,
{
    TabunError::ParseError(String::from_str("posts"), what.to_owned())
}

/// Extracts the post of `scope`: an article of a list page, or the whole
/// page.
fn extract_post(page: &Page, scope: Option<usize>) -> (r: Result<Post, TabunError>)
    ensures
        ({
            let sv = match scope {
                Some(a) => Some(a as int),
                None => None::<int>,
            };
            match r {
                Ok(p) => post_match(page.nodes@, sv, p@),
                Err(e) => e is ParseError && !post_fields_ok(page.nodes@, sv),
            }
        }),
{
    let ghost nodes = page.nodes@;
    let ghost sv: Option<int> = match scope {
        Some(a) => Some(a as int),
        None => None,
    };

    let id: u32 = match ff_within(page, scope, &Pred::tag_class("div", "vote-topic")) {
        Some(v) => {
            proof {
                match sv {
                    Some(a) => lemma_first_hit_sound(
                        nodes,
                        Some(seq![a as usize]),
                        pv_tag_class("div"@, "vote-topic"@),
                        v as int,
                    ),
                    None => lemma_first_hit_sound(
                        nodes,
                        None,
                        pv_tag_class("div"@, "vote-topic"@),
                        v as int,
                    ),
                }
            }
            match page.attr(v, "id") {
                Some(a) => match seg_u32(a.as_str(), 3) {
                    Some(x) => x,
                    None => {
                        return Err(missing("post vote widget id is malformed"));
                    },
                },
                None => {
                    return Err(missing("post vote widget lacks an id"));
                },
            }
        },
        None => {
            return Err(missing("post lacks a vote widget"));
        },
    };

    let title: String = match ff_within(page, scope, &Pred::tag_class("h1", "topic-title")) {
        Some(t) => {
            proof {
                match sv {
                    Some(a) => lemma_first_hit_sound(
                        nodes,
                        Some(seq![a as usize]),
                        pv_tag_class("h1"@, "topic-title"@),
                        t as int,
                    ),
                    None => lemma_first_hit_sound(
                        nodes,
                        None,
                        pv_tag_class("h1"@, "topic-title"@),
                        t as int,
                    ),
                }
            }
            page.text_of(t)
        },
        None => {
            return Err(missing("post lacks a title"));
        },
    };

    let body: String = match ff_within(page, scope, &Pred::tag_class("div", "topic-content")) {
        Some(b) => {
            proof {
                match sv {
                    Some(a) => lemma_first_hit_sound(
                        nodes,
                        Some(seq![a as usize]),
                        pv_tag_class("div"@, "topic-content"@),
                        b as int,
                    ),
                    None => lemma_first_hit_sound(
                        nodes,
                        None,
                        pv_tag_class("div"@, "topic-content"@),
                        b as int,
                    ),
                }
            }
            let raw = page.inner_html_of(b);
            str_trim(raw.as_str()).to_owned()
        },
        None => {
            return Err(missing("post lacks a body"));
        },
    };

    let date: String = match ff_scoped_within(
        page,
        scope,
        &Pred::tag_class("li", "topic-info-date"),
        &Pred::by_tag("time"),
    ) {
        Some(t) => {
            proof {
                match sv {
                    Some(a) => lemma_scoped_first_sound(
                        nodes,
                        Some(seq![a as usize]),
                        pv_tag_class("li"@, "topic-info-date"@),
                        pv_tag("time"@),
                        t as int,
                    ),
                    None => lemma_scoped_first_sound(
                        nodes,
                        None,
                        pv_tag_class("li"@, "topic-info-date"@),
                        pv_tag("time"@),
                        t as int,
                    ),
                }
            }
            match page.attr(t, "datetime") {
                Some(d) => d,
                None => {
                    return Err(missing("post time lacks a datetime"));
                },
            }
        },
        None => {
            return Err(missing("post lacks a date"));
        },
    };

    let mut tags: Vec<String> = Vec::new();
    let tag_idxs = find_all_within(page, scope, &Pred::tag_attr("a", "rel", "tag"));
    let tn = tag_idxs.len();
    let mut ti: usize = 0;
    while ti < tn
        invariant
            nodes == page.nodes@,
            tn == tag_idxs@.len(),
            0 <= ti <= tn,
            forall|t: int| 0 <= t < tn ==> #[trigger] tag_idxs@[t] < nodes.len(),
            tags@.len() == ti,
            forall|t: int| 0 <= t < ti ==> (#[trigger] tags@[t])@ == nodes[tag_idxs@[t] as int].text@,
        decreases tn - ti,
    {
        tags.push(page.text_of(tag_idxs[ti]));
        ti = ti + 1;
    }

    let cm_count: u32 = match scope {
        None => match ff_within(page, None, &Pred::tag_attr("span", "id", "count-comments")) {
            Some(c) => {
                proof {
                    lemma_first_hit_sound(
                        nodes,
                        None,
                        pv_tag_attr("span"@, "id"@, "count-comments"@),
                        c as int,
                    );
                }
                match parse_u32(page.text_of(c).as_str()) {
                    Some(v) => v,
                    None => {
                        return Err(missing("post comment counter is malformed"));
                    },
                }
            },
            None => {
                return Err(missing("post lacks a comment counter"));
            },
        },
        Some(a) => match find_first_in(page, a, &Pred::tag_class("li", "topic-info-comments")) {
            Some(el) => {
                proof {
                    lemma_first_hit_sound(
                        nodes,
                        Some(seq![a]),
                        pv_tag_class("li"@, "topic-info-comments"@),
                        el as int,
                    );
                }
                match find_first_in(page, el, &Pred::by_tag("span")) {
                    Some(c) => {
                        proof {
                            lemma_first_hit_sound(nodes, Some(seq![el]), pv_tag("span"@), c as int);
                        }
                        match parse_u32(page.text_of(c).as_str()) {
                            Some(v) => v,
                            None => {
                                return Err(missing("post comment count is malformed"));
                            },
                        }
                    },
                    None => {
                        return Err(missing("post comment item lacks a count"));
                    },
                }
            },
            None => {
                return Err(missing("post lacks a comment item"));
            },
        },
    };

    let author: String = match ff_scoped_within(
        page,
        scope,
        &Pred::tag_class("div", "topic-info"),
        &Pred::tag_attr("a", "rel", "author"),
    ) {
        Some(t) => {
            proof {
                match sv {
                    Some(a) => lemma_scoped_first_sound(
                        nodes,
                        Some(seq![a as usize]),
                        pv_tag_class("div"@, "topic-info"@),
                        pv_tag_attr("a"@, "rel"@, "author"@),
                        t as int,
                    ),
                    None => lemma_scoped_first_sound(
                        nodes,
                        None,
                        pv_tag_class("div"@, "topic-info"@),
                        pv_tag_attr("a"@, "rel"@, "author"@),
                        t as int,
                    ),
                }
            }
            page.text_of(t)
        },
        None => {
            return Err(missing("post lacks an author"));
        },
    };

    let p = Post {
        title: title,
        body: body,
        date: date,
        tags: tags,
        comments_count: cm_count,
        author: author,
        id: id,
    };
    proof {
        assert(p@.tags =~= strs_view(p.tags@));
        assert(tags_of_match(nodes, sv, p@.tags));
    }
    Ok(p)
}

/// Extracts the one post of a post page.
pub fn doc_get_post(page: &Page) -> (r: TabunResult<Post>)
    ensures
        match r {
            Ok(p) => post_match(page.nodes@, None, p@),
            Err(e) => e is ParseError && !post_fields_ok(page.nodes@, None),
        },
{
    match extract_post(page, None) {
        Ok(p) => Ok(p),
        Err(e) => Err(e),
    }
}

/// Extracts every post of a list page, one per `article`, in page order.
pub fn doc_get_posts(page: &Page) -> (r: TabunResult<Vec<Post>>)
    ensures
        match r {
            Ok(v) => exists|arts: Seq<usize>|
                {
                    &&& #[trigger] found_all(page.nodes@, None, pv_tag("article"@), arts)
                    &&& v@.len() == arts.len()
                    &&& forall|j: int|
                        0 <= j < arts.len() ==> post_match(
                            page.nodes@,
                            Some(#[trigger] arts[j] as int),
                            v@[j]@,
                        )
                },
            Err(e) => e is ParseError && exists|a: int|
                #[trigger] hit(page.nodes@, None, pv_tag("article"@), a) && !post_fields_ok(
                    page.nodes@,
                    Some(a),
                ),
        },
{
    let ghost nodes = page.nodes@;
    let arts = find_all(page, None, &Pred::by_tag("article"));
    let mut out: Vec<Post> = Vec::new();
    let an = arts.len();
    let mut i: usize = 0;
    while i < an
        invariant
            nodes == page.nodes@,
            an == arts@.len(),
            0 <= i <= an,
            found_all(nodes, None, pv_tag("article"@), arts@),
            out@.len() == i,
            forall|j: int| 0 <= j < i ==> post_match(
                nodes,
                Some(arts@[j] as int),
                (#[trigger] out@[j])@,
            ),
        decreases an - i,
    {
        match extract_post(page, Some(arts[i])) {
            Ok(p) => {
                out.push(p);
            },
            Err(e) => {
                proof {
                    assert(hit(nodes, None, pv_tag("article"@), arts@[i as int] as int));
                }
                return Err(e);
            },
        }
        i = i + 1;
    }
    Ok(out)
}

/// What the edit form of a post carries: the raw title and body field
/// values and the comma-separated tags.
pub open spec fn editable_post_of(nodes: Seq<PageNode>) -> Result<EditablePostModel, ()> {
    match first_hit_of(nodes, None, pv_attr("id"@, "topic_title"@)) {
        Some(t) => match attr_of(nodes[t], "value"@) {
            Some(title) => match first_hit_of(nodes, None, pv_attr("id"@, "topic_text"@)) {
                Some(b) => match first_hit_of(nodes, None, pv_attr("id"@, "topic_tags"@)) {
                    Some(tg) => match attr_of(nodes[tg], "value"@) {
                        Some(tv) => Ok(
                            EditablePostModel {
                                title: title,
                                body: nodes[b].text@,
                                tags: split_all(tv, ','),
                            },
                        ),
                        None => Err(()),
                    },
                    None => Err(()),
                },
                None => Err(()),
            },
            None => Err(()),
        },
        None => Err(()),
    }
}

/// Extracts the raw form values from a post's edit page.
pub fn doc_get_editable_post(page: &Page) -> (r: TabunResult<EditablePost>)
    ensures
        match r {
            Ok(p) => editable_post_of(page.nodes@) == Ok::<EditablePostModel, ()>(p@),
            Err(e) => e is ParseError && editable_post_of(page.nodes@) is Err,
        },
{
    let ghost nodes = page.nodes@;
    let title: String = match ff_within(page, None, &Pred::by_attr("id", "topic_title")) {
        Some(t) => {
            proof {
                lemma_first_hit_sound(nodes, None, pv_attr("id"@, "topic_title"@), t as int);
            }
            match page.attr(t, "value") {
                Some(v) => v,
                None => {
                    return Err(missing("edit form title lacks a value"));
                },
            }
        },
        None => {
            return Err(missing("edit form lacks a title field"));
        },
    };
    let body: String = match ff_within(page, None, &Pred::by_attr("id", "topic_text")) {
        Some(b) => {
            proof {
                lemma_first_hit_sound(nodes, None, pv_attr("id"@, "topic_text"@), b as int);
            }
            page.text_of(b)
        },
        None => {
            return Err(missing("edit form lacks a body field"));
        },
    };
    let tags: Vec<String> = match ff_within(page, None, &Pred::by_attr("id", "topic_tags")) {
        Some(tg) => {
            proof {
                lemma_first_hit_sound(nodes, None, pv_attr("id"@, "topic_tags"@), tg as int);
            }
            match page.attr(tg, "value") {
                Some(v) => split_all_exec(v.as_str(), ','),
                None => {
                    return Err(missing("edit form tags lack a value"));
                },
            }
        },
        None => {
            return Err(missing("edit form lacks a tags field"));
        },
    };
    let p = EditablePost { title: title, body: body, tags: tags };
    proof {
        assert(p@.tags =~~= strs_view(p.tags@));
        assert(editable_post_of(nodes) == Ok::<EditablePostModel, ()>(p@));
    }
    Ok(p)
}

/// Extracts the raw form values from a poll's edit page; the markup is
/// the same form, answers excluded.
pub fn doc_get_editable_poll(page: &Page) -> (r: TabunResult<EditablePost>)
    ensures
        match r {
            Ok(p) => editable_post_of(page.nodes@) == Ok::<EditablePostModel, ()>(p@),
            Err(e) => e is ParseError && editable_post_of(page.nodes@) is Err,
        },
{
    doc_get_editable_post(page)
}

/// The id of the blog a blog page shows: the last underscore segment of
/// the id of the vote widget's inner span.
pub open spec fn blog_id_of(nodes: Seq<PageNode>) -> Result<u32, ()> {
    match first_scoped_hit(nodes, pv_tag_class("div"@, "vote-item"@), pv_tag("span"@)) {
        Some(el) => match attr_of(nodes[el], "id"@) {
            Some(a) => match last_seg_u32_spec(a) {
                Some(v) => Ok(v),
                None => Err(()),
            },
            None => Err(()),
        },
        None => Err(()),
    }
}

/// Extracts a blog's numeric id from its page's vote widget.
pub fn doc_get_blog_id(page: &Page) -> (r: TabunResult<u32>)
    ensures
        match r {
            Ok(v) => blog_id_of(page.nodes@) == Ok::<u32, ()>(v),
            Err(e) => e is ParseError && blog_id_of(page.nodes@) is Err,
        },
{
    let ghost nodes = page.nodes@;
    match find_first_scoped(page, &Pred::tag_class("div", "vote-item"), &Pred::by_tag("span")) {
        Some(el) => {
            proof {
                lemma_scoped_first_sound(
                    nodes,
                    None,
                    pv_tag_class("div"@, "vote-item"@),
                    pv_tag("span"@),
                    el as int,
                );
            }
            match page.attr(el, "id") {
                Some(a) => match last_seg_u32(a.as_str()) {
                    Some(v) => Ok(v),
                    None => Err(missing("blog vote widget id is malformed")),
                },
                None => Err(missing("blog vote widget lacks an id")),
            }
        },
        None => Err(missing("blog page lacks a vote widget")),
    }
}

impl TClient {
    /// Builds the form that creates a post in a blog and publishes it.
    pub fn add_post_request(&self, blog_id: u32, title: &str, body: &str, tags: &Vec<String>) -> (r:
        HttpRequest)
        ensures
            r.method == HttpMethod::PostMultipart,
            r.url@ == "/topic/add"@,
            r.referer is None,
            r.fields@.len() == 7,
            r.fields@[0].0@ == "topic_type"@ && r.fields@[0].1@ == "topic"@,
            r.fields@[1].0@ == "blog_id"@ && r.fields@[1].1@ == dec_str(blog_id as nat),
            r.fields@[2].0@ == "topic_title"@ && r.fields@[2].1@ == title@,
            r.fields@[3].0@ == "topic_text"@ && r.fields@[3].1@ == body@,
            r.fields@[4].0@ == "topic_tags"@ && r.fields@[4].1@ == comma_joined(strs_view(tags@)),
            r.fields@[5].0@ == "submit_topic_publish"@,
            r.fields@[6].0@ == "security_ls_key"@ && r.fields@[6].1@ == self.security_ls_key@,
    {
        let mut fields: Vec<(String, String)> = Vec::new();
        fields.push(("topic_type".to_owned(), "topic".to_owned()));
        fields.push(("blog_id".to_owned(), u32_to_dec(blog_id)));
        fields.push(("topic_title".to_owned(), title.to_owned()));
        fields.push(("topic_text".to_owned(), body.to_owned()));
        fields.push(("topic_tags".to_owned(), crate::text::join_with_commas(tags)));
        fields.push(("submit_topic_publish".to_owned(), "Опубликовать".to_owned()));
        fields.push(("security_ls_key".to_owned(), self.security_ls_key.clone()));
        HttpRequest {
            method: HttpMethod::PostMultipart,
            url: "/topic/add".to_owned(),
            fields: fields,
            referer: None,
        }
    }

    /// Builds the form that creates a poll, with its answer choices and
    /// a publish-or-draft switch.
    pub fn add_poll_request(
        &self,
        blog_id: u32,
        title: &str,
        choices: &Vec<String>,
        body: &str,
        tags: &Vec<String>,
        forbid_comment: bool,
        publish: bool,
    ) -> (r: HttpRequest)
        ensures
            r.method == HttpMethod::PostMultipart,
            r.url@ == "/question/add"@,
            r.referer is None,
            r.fields@.len() == 8 + choices@.len(),
            r.fields@[0].0@ == "topic_type"@ && r.fields@[0].1@ == "question"@,
            r.fields@[1].0@ == "blog_id"@ && r.fields@[1].1@ == dec_str(blog_id as nat),
            r.fields@[2].0@ == "topic_title"@ && r.fields@[2].1@ == title@,
            r.fields@[3].0@ == "topic_text"@ && r.fields@[3].1@ == body@,
            r.fields@[4].0@ == "topic_tags"@ && r.fields@[4].1@ == comma_joined(strs_view(tags@)),
            r.fields@[5].0@ == "topic_forbid_comment"@ && (if forbid_comment {
                r.fields@[5].1@ == "1"@
            } else {
                r.fields@[5].1@ == "0"@
            }),
            r.fields@[6].0@ == "security_ls_key"@ && r.fields@[6].1@ == self.security_ls_key@,
            forall|j: int|
                0 <= j < choices@.len() ==> (#[trigger] r.fields@[7 + j]).0@ == "answer[]"@
                    && r.fields@[7 + j].1@ == choices@[j]@,
            r.fields@[7 + choices@.len() as int].0@ == (if publish {
                "submit_topic_publish"@
            } else {
                "submit_topic_save"@
            }),
    {
        let mut fields: Vec<(String, String)> = Vec::new();
        fields.push(("topic_type".to_owned(), "question".to_owned()));
        fields.push(("blog_id".to_owned(), u32_to_dec(blog_id)));
        fields.push(("topic_title".to_owned(), title.to_owned()));
        fields.push(("topic_text".to_owned(), body.to_owned()));
        fields.push(("topic_tags".to_owned(), crate::text::join_with_commas(tags)));
        fields.push((
            "topic_forbid_comment".to_owned(),
            if forbid_comment {
                "1".to_owned()
            } else {
                "0".to_owned()
            },
        ));
        fields.push(("security_ls_key".to_owned(), self.security_ls_key.clone()));
        let cn = choices.len();
        let mut ci: usize = 0;
        while ci < cn
            invariant
                cn == choices@.len(),
                0 <= ci <= cn,
                fields@.len() == 7 + ci,
                fields@[0].0@ == "topic_type"@ && fields@[0].1@ == "question"@,
                fields@[1].0@ == "blog_id"@ && fields@[1].1@ == dec_str(blog_id as nat),
                fields@[2].0@ == "topic_title"@ && fields@[2].1@ == title@,
                fields@[3].0@ == "topic_text"@ && fields@[3].1@ == body@,
                fields@[4].0@ == "topic_tags"@ && fields@[4].1@ == comma_joined(strs_view(tags@)),
                fields@[5].0@ == "topic_forbid_comment"@ && (if forbid_comment {
                    fields@[5].1@ == "1"@
                } else {
                    fields@[5].1@ == "0"@
                }),
                fields@[6].0@ == "security_ls_key"@ && fields@[6].1@ == self.security_ls_key@,
                forall|j: int|
                    7 <= j < 7 + ci ==> (#[trigger] fields@[j]).0@ == "answer[]"@
                        && fields@[j].1@ == choices@[j - 7]@,
            decreases cn - ci,
        {
            fields.push(("answer[]".to_owned(), choices[ci].clone()));
            ci = ci + 1;
        }
        fields.push((
            if publish {
                "submit_topic_publish".to_owned()
            } else {
                "submit_topic_save".to_owned()
            },
            if publish {
                "Опубликовать".to_owned()
            } else {
                "Сохранить в черновиках".to_owned()
            },
        ));
        HttpRequest {
            method: HttpMethod::PostMultipart,
            url: "/question/add".to_owned(),
            fields: fields,
            referer: None,
        }
    }

    /// Builds the form that edits a post and republishes it.
    pub fn edit_post_request(
        &self,
        post_id: u32,
        blog_id: u32,
        title: &str,
        body: &str,
        tags: &Vec<String>,
        forbid_comment: bool,
    ) -> (r: HttpRequest)
        ensures
            r.method == HttpMethod::PostMultipart,
            r.url@ == "/topic/edit/"@ + dec_str(post_id as nat),
            r.referer is None,
            r.fields@.len() == 8,
            r.fields@[0].0@ == "topic_type"@ && r.fields@[0].1@ == "topic"@,
            r.fields@[1].0@ == "blog_id"@ && r.fields@[1].1@ == dec_str(blog_id as nat),
            r.fields@[2].0@ == "topic_title"@ && r.fields@[2].1@ == title@,
            r.fields@[3].0@ == "topic_text"@ && r.fields@[3].1@ == body@,
            r.fields@[4].0@ == "topic_tags"@ && r.fields@[4].1@ == comma_joined(strs_view(tags@)),
            r.fields@[5].0@ == "submit_topic_publish"@,
            r.fields@[6].0@ == "security_ls_key"@ && r.fields@[6].1@ == self.security_ls_key@,
            r.fields@[7].0@ == "topic_forbid_comment"@ && (if forbid_comment {
                r.fields@[7].1@ == "1"@
            } else {
                r.fields@[7].1@ == "0"@
            }),
    {
        let mut fields: Vec<(String, String)> = Vec::new();
        fields.push(("topic_type".to_owned(), "topic".to_owned()));
        fields.push(("blog_id".to_owned(), u32_to_dec(blog_id)));
        fields.push(("topic_title".to_owned(), title.to_owned()));
        fields.push(("topic_text".to_owned(), body.to_owned()));
        fields.push(("topic_tags".to_owned(), crate::text::join_with_commas(tags)));
        fields.push(("submit_topic_publish".to_owned(), "Опубликовать".to_owned()));
        fields.push(("security_ls_key".to_owned(), self.security_ls_key.clone()));
        fields.push((
            "topic_forbid_comment".to_owned(),
            if forbid_comment {
                "1".to_owned()
            } else {
                "0".to_owned()
            },
        ));
        HttpRequest {
            method: HttpMethod::PostMultipart,
            url: str_concat("/topic/edit/", u32_to_dec(post_id).as_str()),
            fields: fields,
            referer: None,
        }
    }

    /// Builds the form that edits a poll's body and tags; the site does
    /// not let its title or answers change.
    pub fn edit_poll_request(
        &self,
        post_id: u32,
        blog_id: u32,
        body: &str,
        tags: &Vec<String>,
        forbid_comment: bool,
        publish: bool,
    ) -> (r: HttpRequest)
        ensures
            r.method == HttpMethod::PostMultipart,
            r.url@ == "/question/edit/"@ + dec_str(post_id as nat),
            r.referer is None,
            r.fields@.len() == 8,
            r.fields@[0].0@ == "topic_type"@ && r.fields@[0].1@ == "question"@,
            r.fields@[1].0@ == "blog_id"@ && r.fields@[1].1@ == dec_str(blog_id as nat),
            r.fields@[2].0@ == "topic_title"@ && r.fields@[2].1@ == ""@,
            r.fields@[3].0@ == "topic_text"@ && r.fields@[3].1@ == body@,
            r.fields@[4].0@ == "topic_tags"@ && r.fields@[4].1@ == comma_joined(strs_view(tags@)),
            r.fields@[5].0@ == "security_ls_key"@ && r.fields@[5].1@ == self.security_ls_key@,
            r.fields@[6].0@ == "topic_forbid_comment"@ && (if forbid_comment {
                r.fields@[6].1@ == "1"@
            } else {
                r.fields@[6].1@ == "0"@
            }),
            r.fields@[7].0@ == (if publish {
                "submit_topic_publish"@
            } else {
                "submit_topic_save"@
            }),
    {
        let mut fields: Vec<(String, String)> = Vec::new();
        fields.push(("topic_type".to_owned(), "question".to_owned()));
        fields.push(("blog_id".to_owned(), u32_to_dec(blog_id)));
        fields.push(("topic_title".to_owned(), "".to_owned()));
        fields.push(("topic_text".to_owned(), body.to_owned()));
        fields.push(("topic_tags".to_owned(), crate::text::join_with_commas(tags)));
        fields.push(("security_ls_key".to_owned(), self.security_ls_key.clone()));
        fields.push((
            "topic_forbid_comment".to_owned(),
            if forbid_comment {
                "1".to_owned()
            } else {
                "0".to_owned()
            },
        ));
        fields.push((
            if publish {
                "submit_topic_publish".to_owned()
            } else {
                "submit_topic_save".to_owned()
            },
            if publish {
                "Опубликовать".to_owned()
            } else {
                "Сохранить в черновиках".to_owned()
            },
        ));
        HttpRequest {
            method: HttpMethod::PostMultipart,
            url: str_concat("/question/edit/", u32_to_dec(post_id).as_str()),
            fields: fields,
            referer: None,
        }
    }

    /// Builds the fetch that deletes a post, token in the query string
    /// and the post's own address as the referer.
    pub fn delete_post_request(&self, post_id: u32) -> (r: HttpRequest)
        ensures
            r.method == HttpMethod::Get,
            r.url@ == "/topic/delete/"@ + dec_str(post_id as nat) + "/?security_ls_key="@
                + self.security_ls_key@,
            r.referer matches Some(rf) && rf@ == HOST_URL@ + "/blog/"@ + dec_str(post_id as nat)
                + ".html"@,
            r.fields@.len() == 0,
    {
        let ids = u32_to_dec(post_id);
        let url = str_concat(
            str_concat(str_concat("/topic/delete/", ids.as_str()).as_str(), "/?security_ls_key=")
                .as_str(),
            self.security_ls_key.as_str(),
        );
        let referer = str_concat(
            str_concat(str_concat(HOST_URL, "/blog/").as_str(), ids.as_str()).as_str(),
            ".html",
        );
        HttpRequest {
            method: HttpMethod::Get,
            url: url,
            fields: Vec::new(),
            referer: Some(referer),
        }
    }

    /// Builds the favourite toggle for a post.
    pub fn favourite_post_request(&self, id: u32, typ: bool) -> (r: HttpRequest)
        ensures
            r.method == HttpMethod::PostMultipart,
            r.url@ == "/ajax/favourite/topic/"@,
            r.referer is None,
            r.fields@.len() == 3,
            r.fields@[0].0@ == "security_ls_key"@ && r.fields@[0].1@ == self.security_ls_key@,
            r.fields@[1].0@ == "idTopic"@ && r.fields@[1].1@ == dec_str(id as nat),
            r.fields@[2].0@ == "type"@ && (if typ {
                r.fields@[2].1@ == "1"@
            } else {
                r.fields@[2].1@ == "0"@
            }),
    {
        self.favourite_request(id, typ, false)
    }

    /// Builds the favourite toggle for a comment.
    pub fn favourite_comment_request(&self, id: u32, typ: bool) -> (r: HttpRequest)
        ensures
            r.method == HttpMethod::PostMultipart,
            r.url@ == "/ajax/favourite/comment/"@,
            r.referer is None,
            r.fields@.len() == 3,
            r.fields@[0].0@ == "security_ls_key"@ && r.fields@[0].1@ == self.security_ls_key@,
            r.fields@[1].0@ == "idComment"@ && r.fields@[1].1@ == dec_str(id as nat),
            r.fields@[2].0@ == "type"@ && (if typ {
                r.fields@[2].1@ == "1"@
            } else {
                r.fields@[2].1@ == "0"@
            }),
    {
        self.favourite_request(id, typ, true)
    }
}

/// Decides what the redirect of a post create or edit means: the new
/// post's id from the `Location` address, a parse error when the header
/// is absent or carries no id.
pub fn post_location_response(location: Option<&str>) -> (r: TabunResult<u32>)
    ensures
        match r {
            Ok(v) => location matches Some(l) && crate::ids::location_post_id(l@) == Some(v),
            Err(e) => e is ParseError && match location {
                Some(l) => crate::ids::location_post_id(l@) is None,
                None => true,
            },
        },
{
    match location {
        Some(l) => match crate::ids::post_id_from_location(l) {
            Some(v) => Ok(v),
            None => Err(missing("redirect address carries no post id")),
        },
        None => Err(missing("reply carries no redirect address")),
    }
}

/// Decides what the status of a delete fetch means: success only for a
/// success status, the status itself otherwise.
pub fn delete_response(status: u16) -> (r: TabunResult<()>)
    ensures
        status == 200 ==> r is Ok,
        status != 200 ==> r == Err::<(), TabunError>(TabunError::NumError(status)),
{
    if status == 200 {
        Ok(())
    } else {
        Err(TabunError::NumError(status))
    }
}

} // verus!
