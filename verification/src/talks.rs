//! Conversation extraction and the conversation operations.
//!
//! A conversation page is a topic with its own comment container; the
//! participants stand in a recipients header among other links and are
//! told apart by a `username` class marker.  The inbox is a table whose
//! rows carry the conversation id inside the title link's address.

use vstd::prelude::*;

verus! {

use vstd::string::StrSliceExecFns;

use crate::comments::{comment_of, doc_get_comments, is_comment_node};
use crate::page::{
    attr_of, ff_scoped_within, ff_within, find_all, find_all_scoped_under, find_first_in,
    first_hit_of, first_in, first_scoped_within, found_all_scoped, lemma_first_hit_sound,
    lemma_scoped_first_sound, pv_class, pv_tag, pv_tag_class, scoped_hit_in, Page, PageNode,
    Pred,
};
use crate::session::{HttpMethod, HttpRequest, TClient, HOST_URL};
use crate::text::{
    comma_joined, dec_str, has_sub, join_with_commas, nth_segment, nth_segment_spec, parse_u32,
    str_concat, str_trim, strs_view, trimmed, u32_parse_spec, u32_to_dec,
};
use crate::{TabunError, TabunResult, Talk, TalkItem};

/// An error starting a conversation: the server named no recipients, or
/// an ordinary failure.
#[derive(Debug)]
pub enum TalkError {
    NoMembers,
    TabunError(TabunError),
}

/// The title of the conversation page.
pub open spec fn talk_title_of(nodes: Seq<PageNode>) -> Result<Seq<char>, ()> {
    match first_hit_of(nodes, None, pv_class("topic-title"@)) {
        Some(t) => Ok(nodes[t].text@),
        None => Err(()),
    }
}

/// The rendered body of the conversation page, trimmed.
pub open spec fn talk_body_of(nodes: Seq<PageNode>) -> Result<Seq<char>, ()> {
    match first_hit_of(nodes, None, pv_class("topic-content"@)) {
        Some(b) => Ok(trimmed(nodes[b].inner_html@)),
        None => Err(()),
    }
}

/// The timestamp of the conversation page.
pub open spec fn talk_date_of(nodes: Seq<PageNode>) -> Result<Seq<char>, ()> {
    match first_scoped_within(
        nodes,
        None,
        pv_tag_class("li"@, "topic-info-date"@),
        pv_tag("time"@),
    ) {
        Some(t) => match attr_of(nodes[t], "datetime"@) {
            Some(d) => Ok(d),
            None => Err(()),
        },
        None => Err(()),
    }
}

/// A link that names a participant: its class list mentions `username`.
pub open spec fn is_username_link(nodes: Seq<PageNode>, i: int) -> bool {
    attr_of(nodes[i], "class"@) matches Some(c) && has_sub(c, "username"@)
}

/// The participant names among the links `links`, in order.
pub open spec fn username_texts(nodes: Seq<PageNode>, links: Seq<usize>) -> Seq<Seq<char>>
    decreases links.len(),
{
    if links.len() == 0 {
        Seq::empty()
    } else {
        username_texts(nodes, links.drop_last()) + (
        if is_username_link(nodes, links.last() as int) {
            seq![nodes[links.last() as int].text@]
        } else {
            Seq::empty()
        })
    }
}

/// `users` is the participant list of the page: the names on
/// username-marked links inside the recipients header.
pub open spec fn talk_users_match(nodes: Seq<PageNode>, users: Seq<Seq<char>>) -> bool {
    exists|links: Seq<usize>|
        #[trigger] found_all_scoped(
            nodes,
            None,
            pv_class("talk-recipients-header"@),
            pv_tag("a"@),
            links,
        ) && users == username_texts(nodes, links)
}

/// Collects the participant names of the page.
fn extract_talk_users(page: &Page) -> (r: Vec<String>)
    ensures
        talk_users_match(page.nodes@, strs_view(r@)),
{
    let ghost nodes = page.nodes@;
    let n = page.nodes.len();
    let headers = find_all(page, None, &Pred::by_class("talk-recipients-header"));
    let links = find_all(page, Some(&headers), &Pred::by_tag("a"));
    proof {
        crate::page::lemma_scope_equiv_in(
            nodes,
            None,
            pv_class("talk-recipients-header"@),
            pv_tag("a"@),
            headers@,
        );
    }
    let mut users: Vec<String> = Vec::new();
    let m = links.len();
    let mut i: usize = 0;
    while i < m
        invariant
            nodes == page.nodes@,
            m == links@.len(),
            0 <= i <= m,
            forall|t: int| 0 <= t < m ==> #[trigger] links@[t] < nodes.len(),
            strs_view(users@) =~~= username_texts(nodes, links@.subrange(0, i as int)),
        decreases m - i,
    {
        let l = links[i];
        let is_user = match page.attr(l, "class") {
            Some(c) => crate::text::str_contains(c.as_str(), "username"),
            None => false,
        };
        if is_user {
            users.push(page.text_of(l));
        }
        proof {
            assert(links@.subrange(0, i + 1).drop_last() =~= links@.subrange(0, i as int));
            assert(links@.subrange(0, i + 1).last() == links@[i as int]);
            assert(strs_view(users@) =~~= username_texts(nodes, links@.subrange(0, i + 1)));
        }
        i = i + 1;
    }
    proof {
        assert(links@.subrange(0, m as int) =~= links@);
        assert(found_all_scoped(
            nodes,
            None,
            pv_class("talk-recipients-header"@),
            pv_tag("a"@),
            links@,
        ));
        assert(strs_view(users@) =~~= username_texts(nodes, links@));
        assert(talk_users_match(nodes, strs_view(users@)));
    }
    users
}

/// Required fields of a conversation page are present.
pub open spec fn talk_fields_ok(nodes: Seq<PageNode>) -> bool {
    &&& talk_title_of(nodes) is Ok
    &&& talk_body_of(nodes) is Ok
    &&& talk_date_of(nodes) is Ok
}

/// Every comment of the page extracts cleanly against address `uv`.
pub open spec fn comments_all_ok(nodes: Seq<PageNode>, uv: Option<Seq<char>>) -> bool {
    forall|i: int| is_comment_node(nodes, i) ==> #[trigger] comment_of(nodes, i, uv) is Ok
}

/// The address a conversation's comments are attributed to.
pub open spec fn talk_url_of(talk_id: Option<u32>) -> Option<Seq<char>> {
    match talk_id {
        Some(t) => Some("/talk/read/"@ + dec_str(t as nat) + "/"@),
        None => None,
    }
}

fn missing(what: &str) -> (r: TabunError)
    ensures
        r is ParseError,
{
    TabunError::ParseError(String::from_str("talks"), what.to_owned())
}

/// Extracts a conversation: title, body, date, participants, and its
/// comments, attributed to the conversation's address when its id is
/// given.
pub fn doc_get_talk(page: &Page, talk_id: Option<u32>) -> (r: TabunResult<Talk>)
    ensures
        match r {
            Ok(t) => {
                &&& talk_title_of(page.nodes@) == Ok::<Seq<char>, ()>(t.title@)
                &&& talk_body_of(page.nodes@) == Ok::<Seq<char>, ()>(t.body@)
                &&& talk_date_of(page.nodes@) == Ok::<Seq<char>, ()>(t.date@)
                &&& talk_users_match(page.nodes@, strs_view(t.users@))
                &&& comments_all_ok(page.nodes@, talk_url_of(talk_id))
                &&& forall|i: int|
                    is_comment_node(page.nodes@, i) ==> (#[trigger] comment_of(
                        page.nodes@,
                        i,
                        talk_url_of(talk_id),
                    ) matches Ok(cm) ==> t.comments@.contains_key(cm.id))
                &&& forall|k: u64|
                    #[trigger] t.comments@.contains_key(k) ==> exists|i: int|
                        is_comment_node(page.nodes@, i) && (#[trigger] comment_of(
                            page.nodes@,
                            i,
                            talk_url_of(talk_id),
                        ) matches Ok(cm) && cm.id == k && t.comments@[k]@ == cm)
            },
            Err(e) => e is ParseError && !(talk_fields_ok(page.nodes@) && comments_all_ok(
                page.nodes@,
                talk_url_of(talk_id),
            )),
        },
{
    let ghost nodes = page.nodes@;
    let title: String = match ff_within(page, None, &Pred::by_class("topic-title")) {
        Some(t) => {
            proof {
                lemma_first_hit_sound(nodes, None, pv_class("topic-title"@), t as int);
            }
            page.text_of(t)
        },
        None => {
            return Err(missing("conversation lacks a title"));
        },
    };
    let body: String = match ff_within(page, None, &Pred::by_class("topic-content")) {
        Some(b) => {
            proof {
                lemma_first_hit_sound(nodes, None, pv_class("topic-content"@), b as int);
            }
            let raw = page.inner_html_of(b);
            str_trim(raw.as_str()).to_owned()
        },
        None => {
            return Err(missing("conversation lacks a body"));
        },
    };
    let date: String = match ff_scoped_within(
        page,
        None,
        &Pred::tag_class("li", "topic-info-date"),
        &Pred::by_tag("time"),
    ) {
        Some(t) => {
            proof {
                lemma_scoped_first_sound(
                    nodes,
                    None,
                    pv_tag_class("li"@, "topic-info-date"@),
                    pv_tag("time"@),
                    t as int,
                );
            }
            match page.attr(t, "datetime") {
                Some(d) => d,
                None => {
                    return Err(missing("conversation time lacks a datetime"));
                },
            }
        },
        None => {
            return Err(missing("conversation lacks a date"));
        },
    };
    let comments = match talk_id {
        Some(t) => {
            let url = str_concat(
                str_concat("/talk/read/", u32_to_dec(t).as_str()).as_str(),
                "/",
            );
            match doc_get_comments(page, Some(url.as_str())) {
                Ok(m) => m,
                Err(e) => {
                    return Err(e);
                },
            }
        },
        None => match doc_get_comments(page, None) {
            Ok(m) => m,
            Err(e) => {
                return Err(e);
            },
        },
    };
    let users = extract_talk_users(page);
    Ok(Talk { title: title, body: body, users: users, comments: comments, date: date })
}

/// The conversation id of inbox row `row`: the sixth slash segment of
/// its title link's address.
pub open spec fn talk_row_id_of(nodes: Seq<PageNode>, row: int) -> Result<u32, ()> {
    match first_in(nodes, row, pv_tag_class("a"@, "js-title-talk"@)) {
        Some(l) => match attr_of(nodes[l], "href"@) {
            Some(h) => match nth_segment_spec(h, '/', 5) {
                Some(seg) => match u32_parse_spec(seg) {
                    Some(v) => Ok(v),
                    None => Err(()),
                },
                None => Err(()),
            },
            None => Err(()),
        },
        None => Err(()),
    }
}

/// The title of inbox row `row`.
pub open spec fn talk_row_title_of(nodes: Seq<PageNode>, row: int) -> Result<Seq<char>, ()> {
    match first_in(nodes, row, pv_tag_class("a"@, "js-title-talk"@)) {
        Some(l) => Ok(nodes[l].text@),
        None => Err(()),
    }
}

/// `users` is the participant list of inbox row `row`: username links
/// inside its recipients cell.
pub open spec fn talk_row_users_match(
    nodes: Seq<PageNode>,
    row: int,
    users: Seq<Seq<char>>,
) -> bool {
    exists|links: Seq<usize>|
        {
            &&& #[trigger] found_all_scoped(
                nodes,
                Some(seq![row as usize]),
                pv_tag_class("td"@, "cell-recipients"@),
                pv_tag_class("a"@, "username"@),
                links,
            )
            &&& users.len() == links.len()
            &&& forall|j: int|
                0 <= j < links.len() ==> users[j] == nodes[#[trigger] links[j] as int].text@
        }
}

/// An inbox row is complete: it carries a link with a readable id.
pub open spec fn talk_row_ok(nodes: Seq<PageNode>, row: int) -> bool {
    talk_row_id_of(nodes, row) is Ok
}

/// `row` is an inbox row: a table row inside a table body.
pub open spec fn is_inbox_row(nodes: Seq<PageNode>, i: int) -> bool {
    scoped_hit_in(nodes, None, pv_tag("tbody"@), pv_tag("tr"@), i)
}

/// Extracts one inbox row.
fn extract_talk_item(page: &Page, row: usize) -> (r: Result<TalkItem, TabunError>)
    requires
        row < page.nodes@.len(),
    ensures
        match r {
            Ok(t) => talk_row_id_of(page.nodes@, row as int) == Ok::<u32, ()>(t.id)
                && talk_row_title_of(page.nodes@, row as int) == Ok::<Seq<char>, ()>(t.title@)
                && talk_row_users_match(page.nodes@, row as int, strs_view(t.users@)),
            Err(e) => e is ParseError && !talk_row_ok(page.nodes@, row as int),
        },
{
    let ghost nodes = page.nodes@;
    let link = match find_first_in(page, row, &Pred::tag_class("a", "js-title-talk")) {
        Some(l) => {
            proof {
                lemma_first_hit_sound(
                    nodes,
                    Some(seq![row]),
                    pv_tag_class("a"@, "js-title-talk"@),
                    l as int,
                );
            }
            l
        },
        None => {
            return Err(missing("inbox row lacks a title link"));
        },
    };
    let id: u32 = match page.attr(link, "href") {
        Some(h) => match nth_segment(h.as_str(), '/', 5) {
            Some(seg) => match parse_u32(seg) {
                Some(v) => v,
                None => {
                    return Err(missing("inbox link id is malformed"));
                },
            },
            None => {
                return Err(missing("inbox link address is malformed"));
            },
        },
        None => {
            return Err(missing("inbox link lacks an address"));
        },
    };
    let title = page.text_of(link);
    let link_idxs = find_all_scoped_under(
        page,
        row,
        &Pred::tag_class("td", "cell-recipients"),
        &Pred::tag_class("a", "username"),
    );
    let mut users: Vec<String> = Vec::new();
    let m = link_idxs.len();
    let mut i: usize = 0;
    while i < m
        invariant
            nodes == page.nodes@,
            m == link_idxs@.len(),
            0 <= i <= m,
            forall|t: int| 0 <= t < m ==> #[trigger] link_idxs@[t] < nodes.len(),
            users@.len() == i,
            forall|t: int| 0 <= t < i ==> (#[trigger] users@[t])@ == nodes[link_idxs@[t] as int].text@,
        decreases m - i,
    {
        users.push(page.text_of(link_idxs[i]));
        i = i + 1;
    }
    let t = TalkItem { id: id, title: title, users: users };
    proof {
        assert(strs_view(t.users@) =~~= Seq::new(
            link_idxs@.len(),
            |j: int| nodes[link_idxs@[j] as int].text@,
        ));
        assert(talk_row_users_match(nodes, row as int, strs_view(t.users@)));
    }
    Ok(t)
}

/// Extracts the conversation inbox: one item per table row, in page
/// order.
pub fn doc_get_talks(page: &Page) -> (r: TabunResult<Vec<TalkItem>>)
    ensures
        match r {
            Ok(v) => exists|rows: Seq<usize>|
                {
                    &&& #[trigger] found_all_scoped(
                        page.nodes@,
                        None,
                        pv_tag("tbody"@),
                        pv_tag("tr"@),
                        rows,
                    )
                    &&& v@.len() == rows.len()
                    &&& forall|j: int|
                        0 <= j < rows.len() ==> talk_row_id_of(
                            page.nodes@,
                            #[trigger] rows[j] as int,
                        ) == Ok::<u32, ()>(v@[j].id) && talk_row_title_of(
                            page.nodes@,
                            rows[j] as int,
                        ) == Ok::<Seq<char>, ()>(v@[j].title@) && talk_row_users_match(
                            page.nodes@,
                            rows[j] as int,
                            strs_view(v@[j].users@),
                        )
                },
            Err(e) => e is ParseError && exists|row: int|
                #[trigger] is_inbox_row(page.nodes@, row) && !talk_row_ok(page.nodes@, row),
        },
{
    let ghost nodes = page.nodes@;
    let n = page.nodes.len();
    let bodies = find_all(page, None, &Pred::by_tag("tbody"));
    let rows = find_all(page, Some(&bodies), &Pred::by_tag("tr"));
    proof {
        crate::page::lemma_scope_equiv_in(nodes, None, pv_tag("tbody"@), pv_tag("tr"@), bodies@);
    }
    let mut out: Vec<TalkItem> = Vec::new();
    let rn = rows.len();
    let mut i: usize = 0;
    while i < rn
        invariant
            nodes == page.nodes@,
            rn == rows@.len(),
            0 <= i <= rn,
            found_all_scoped(nodes, None, pv_tag("tbody"@), pv_tag("tr"@), rows@),
            forall|t: int| 0 <= t < rn ==> #[trigger] rows@[t] < nodes.len(),
            out@.len() == i,
            forall|j: int|
                0 <= j < i ==> talk_row_id_of(nodes, #[trigger] rows@[j] as int) == Ok::<u32, ()>(
                    out@[j].id,
                ) && talk_row_title_of(nodes, rows@[j] as int) == Ok::<Seq<char>, ()>(
                    out@[j].title@,
                ) && talk_row_users_match(nodes, rows@[j] as int, strs_view(out@[j].users@)),
        decreases rn - i,
    {
        match extract_talk_item(page, rows[i]) {
            Ok(t) => {
                out.push(t);
            },
            Err(e) => {
                proof {
                    assert(is_inbox_row(nodes, rows@[i as int] as int));
                }
                return Err(e);
            },
        }
        i = i + 1;
    }
    Ok(out)
}

impl TClient {
    /// Builds the form that starts a conversation with the named users.
    pub fn add_talk_request(&self, users: &Vec<String>, title: &str, body: &str) -> (r:
        HttpRequest)
        ensures
            r.method == HttpMethod::PostMultipart,
            r.url@ == "/talk/add"@,
            r.referer is None,
            r.fields@.len() == 5,
            r.fields@[0].0@ == "security_ls_key"@ && r.fields@[0].1@ == self.security_ls_key@,
            r.fields@[1].0@ == "submit_talk_add"@,
            r.fields@[2].0@ == "talk_users"@ && r.fields@[2].1@ == comma_joined(strs_view(users@)),
            r.fields@[3].0@ == "talk_title"@ && r.fields@[3].1@ == title@,
            r.fields@[4].0@ == "talk_text"@ && r.fields@[4].1@ == body@,
    {
        let mut fields: Vec<(String, String)> = Vec::new();
        fields.push(("submit_talk_add".to_owned(), "Отправить".to_owned()));
        fields.push(("talk_users".to_owned(), join_with_commas(users)));
        fields.push(("talk_title".to_owned(), title.to_owned()));
        fields.push(("talk_text".to_owned(), body.to_owned()));
        self.ajax_request("/talk/add", &fields)
    }

    /// Builds the fetch that deletes a conversation, token in the query
    /// string and the conversation's address as the referer.
    pub fn delete_talk_request(&self, talk_id: u32) -> (r: HttpRequest)
        ensures
            r.method == HttpMethod::Get,
            r.url@ == "/talk/delete/"@ + dec_str(talk_id as nat) + "/?security_ls_key="@
                + self.security_ls_key@,
            r.referer matches Some(rf) && rf@ == HOST_URL@ + "/talk/read/"@ + dec_str(
                talk_id as nat,
            ) + "/"@,
            r.fields@.len() == 0,
    {
        let ids = u32_to_dec(talk_id);
        let url = str_concat(
            str_concat(str_concat("/talk/delete/", ids.as_str()).as_str(), "/?security_ls_key=")
                .as_str(),
            self.security_ls_key.as_str(),
        );
        let referer = str_concat(
            str_concat(str_concat(HOST_URL, "/talk/read/").as_str(), ids.as_str()).as_str(),
            "/",
        );
        HttpRequest {
            method: HttpMethod::Get,
            url: url,
            fields: Vec::new(),
            referer: Some(referer),
        }
    }
}

/// Decides what the reply to starting a conversation means: the new
/// conversation's id from the redirect address; no redirect at all means
/// the server accepted no recipients.
pub fn add_talk_response(location: Option<&str>) -> (r: Result<u32, TalkError>)
    ensures
        match r {
            Ok(v) => location matches Some(l) && crate::ids::location_talk_id(l@) == Some(v),
            Err(e) => match e {
                TalkError::NoMembers => location is None,
                TalkError::TabunError(te) => te is ParseError && (location matches Some(l)
                    && crate::ids::location_talk_id(l@) is None),
            },
        },
{
    match location {
        Some(l) => match crate::ids::talk_id_from_location(l) {
            Some(v) => Ok(v),
            None => Err(
                TalkError::TabunError(
                    TabunError::ParseError(
                        String::from_str("talks"),
                        String::from_str("redirect address carries no conversation id"),
                    ),
                ),
            ),
        },
        None => Err(TalkError::NoMembers),
    }
}

} // verus!
