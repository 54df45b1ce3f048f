//! Session state and the authentication flow.
//!
//! A session is a cookie jar, the rotating anti-CSRF token, and the name
//! of the signed-in user.  Every page fetch may rotate the token, so the
//! token is re-read from every page that carries the embedded
//! declaration.  The HTTP exchanges themselves happen outside: this
//! module builds each request as a value and decides what every response
//! means for the session.

use vstd::prelude::*;

verus! {

use vstd::string::StrSliceExecFns;

use crate::ajax::{decode_ajax, decode_ajax_spec, ajax_id_field, id_field_spec, AjaxDecoded};
use crate::json::{json_str_at, json_str_field};
use crate::page::{
    find_first, first_hit_of, lemma_found_first_is, pv_attr, pv_class, Page, PageNode, Pred,
};
use crate::text::{
    dec_str, find_char, find_sub, first_char_occ, has_sub, last_char_occ, lemma_the_first_char,
    lemma_the_first_occurrence, lemma_the_last_char, occurs_at, rfind_char, substr,
    the_first_char, the_first_occurrence, the_last_char, u32_to_dec,
};
use crate::{TabunError, TabunResult};

/// The default host the client talks to.
pub const HOST_URL: &'static str = "https://tabun.everypony.ru";

/// How a request goes out: a plain page fetch, or a multipart form POST.
#[derive(Debug, Clone, PartialEq, Eq)]
pub enum HttpMethod {
    Get,
    PostMultipart,
}

/// One HTTP exchange the library asks its transport to perform: a path
/// relative to the host, form fields for a multipart POST, and an
/// optional Referer header.
#[derive(Debug, Clone)]
pub struct HttpRequest {
    pub method: HttpMethod,
    pub url: String,
    pub fields: Vec<(String, String)>,
    pub referer: Option<String>,
}

/// The session: the signed-in user's name (empty when anonymous), the
/// anti-CSRF token, the host, and the accumulated cookies.
#[derive(Debug, Clone)]
pub struct TClient {
    pub name: String,
    pub security_ls_key: String,
    pub host: String,
    pub cookies: Vec<(String, String)>,
}

/// The token declaration every page embeds ahead of the token itself.
pub open spec fn key_marker() -> Seq<char> {
    "LIVESTREET_SECURITY_KEY = '"@
}

/// The rest of the line that follows the first token declaration of
/// `s`: up to the first newline after it, or to the end of the text.
pub open spec fn token_line_of(s: Seq<char>) -> Seq<char> {
    let rest = s.subrange(
        the_first_occurrence(s, key_marker()) + key_marker().len(),
        s.len() as int,
    );
    if exists|j: int| first_char_occ(rest, '\n', j) {
        rest.subrange(0, the_first_char(rest, '\n'))
    } else {
        rest
    }
}

/// The token a page carries: the text after the first token declaration,
/// up to the last quote on that line, when it is non-empty.
pub open spec fn security_key_of(s: Seq<char>) -> Option<Seq<char>> {
    if has_sub(s, key_marker()) {
        if exists|j: int| last_char_occ(token_line_of(s), '\'', j) {
            let j = the_last_char(token_line_of(s), '\'');
            if j >= 1 {
                Some(token_line_of(s).subrange(0, j))
            } else {
                None
            }
        } else {
            None
        }
    } else {
        None
    }
}

/// Reads the anti-CSRF token out of a page's text.
pub fn extract_security_key(s: &str) -> (r: Option<String>)
    ensures
        match r {
            Some(k) => security_key_of(s@) == Some(k@),
            None => security_key_of(s@) is None,
        },
{
    let n = s.unicode_len();
    let marker = "LIVESTREET_SECURITY_KEY = '";
    let i = match find_sub(s, marker) {
        None => {
            return None;
        },
        Some(i) => i,
    };
    proof {
        assert(marker@ == key_marker());
        lemma_the_first_occurrence(s@, key_marker(), i as int);
    }
    let mlen = marker.unicode_len();
    let rest = substr(s, i + mlen, n);
    proof {
        assert(occurs_at(s@, key_marker(), i as int));
        assert(has_sub(s@, key_marker()));
        assert(rest@ == s@.subrange(
            the_first_occurrence(s@, key_marker()) + key_marker().len(),
            s@.len() as int,
        ));
    }
    let nl = find_char(rest, '\n');
    let line = match nl {
        Some(j) => {
            proof {
                lemma_the_first_char(rest@, '\n', j as int);
            }
            substr(rest, 0, j)
        },
        None => rest,
    };
    proof {
        match nl {
            Some(j) => {
                assert(exists|t: int| first_char_occ(rest@, '\n', t));
                assert(line@ == rest@.subrange(0, the_first_char(rest@, '\n')));
            },
            None => {
                assert(forall|t: int| !first_char_occ(rest@, '\n', t));
                assert(line@ == rest@);
            },
        }
    }
    proof {
        assert(token_line_of(s@) == line@);
    }
    let k = match rfind_char(line, '\'') {
        None => {
            proof {
                assert(forall|t: int| !last_char_occ(line@, '\'', t));
            }
            return None;
        },
        Some(k) => {
            proof {
                lemma_the_last_char(line@, '\'', k as int);
                assert(exists|t: int| last_char_occ(line@, '\'', t));
            }
            k
        },
    };
    if k >= 1 {
        let r = substr(line, 0, k).to_owned();
        proof {
            assert(token_line_of(s@) == line@);
            assert(exists|t: int| last_char_occ(token_line_of(s@), '\'', t));
            assert(security_key_of(s@) == Some(line@.subrange(0, k as int)));
        }
        Some(r)
    } else {
        None
    }
}

/// The display name the page's current-user panel shows: the text of the
/// first `username`-classed node inside the user dropdown, empty when
/// either is absent (an anonymous session).
pub open spec fn username_of(nodes: Seq<PageNode>) -> Seq<char> {
    match first_hit_of(nodes, None, pv_attr("id"@, "dropdown-user"@)) {
        None => Seq::empty(),
        Some(d) => match first_hit_of(nodes, Some(seq![d as usize]), pv_class("username"@)) {
            None => Seq::empty(),
            Some(u) => nodes[u].text@,
        },
    }
}

/// The jar `newj` is `oldj` with `k` now bound to `v`: the first entry
/// for `k` replaced, or a new entry appended.
pub open spec fn jar_updated(
    oldj: Seq<(String, String)>,
    newj: Seq<(String, String)>,
    k: Seq<char>,
    v: Seq<char>,
) -> bool {
    if exists|i: int| 0 <= i < oldj.len() && oldj[i].0@ == k {
        let i = choose|i: int|
            0 <= i < oldj.len() && oldj[i].0@ == k && forall|j: int|
                0 <= j < i ==> oldj[j].0@ != k;
        &&& newj.len() == oldj.len()
        &&& newj[i].0@ == k
        &&& newj[i].1@ == v
        &&& forall|j: int| 0 <= j < oldj.len() && j != i ==> newj[j] == oldj[j]
    } else {
        &&& newj.len() == oldj.len() + 1
        &&& forall|j: int| 0 <= j < oldj.len() ==> newj[j] == oldj[j]
        &&& newj[oldj.len() as int].0@ == k
        &&& newj[oldj.len() as int].1@ == v
    }
}

/// The form fields of an AJAX call: the anti-CSRF token first, then the
/// caller's fields in order.
pub open spec fn fields_with_key(
    key: Seq<char>,
    fields: Seq<(String, String)>,
    out: Seq<(String, String)>,
) -> bool {
    &&& out.len() == fields.len() + 1
    &&& out[0].0@ == "security_ls_key"@
    &&& out[0].1@ == key
    &&& forall|j: int| 1 <= j <= fields.len() ==> (#[trigger] out[j]).0@ == fields[j - 1].0@
        && out[j].1@ == fields[j - 1].1@
}

impl TClient {
    /// A fresh anonymous session against the default host.
    pub fn new() -> (r: TClient)
        ensures
            r.name@ == Seq::<char>::empty(),
            r.security_ls_key@ == Seq::<char>::empty(),
            r.host@ == HOST_URL@,
            r.cookies@.len() == 0,
    {
        TClient {
            name: String::new(),
            security_ls_key: String::new(),
            host: HOST_URL.to_owned(),
            cookies: Vec::new(),
        }
    }

    /// Records one cookie, replacing the value when the name is already
    /// in the jar.  The jar only ever grows: nothing removes a cookie.
    pub fn set_cookie(&mut self, name: &str, value: &str)
        ensures
            jar_updated(old(self).cookies@, final(self).cookies@, name@, value@),
            final(self).name == old(self).name,
            final(self).security_ls_key == old(self).security_ls_key,
            final(self).host == old(self).host,
    {
        let n = self.cookies.len();
        let mut i: usize = 0;
        while i < n
            invariant
                n == self.cookies@.len(),
                0 <= i <= n,
                forall|j: int| 0 <= j < i ==> self.cookies@[j].0@ != name@,
                self.name == old(self).name,
                self.security_ls_key == old(self).security_ls_key,
                self.host == old(self).host,
                self.cookies == old(self).cookies,
            decreases n - i,
        {
            let here = crate::text::str_eq(self.cookies[i].0.as_str(), name);
            if here {
                let mut pair = (name.to_owned(), value.to_owned());
                self.cookies.set(i, pair);
                proof {
                    let w = choose|w: int|
                        0 <= w < old(self).cookies@.len() && old(self).cookies@[w].0@ == name@
                            && forall|j: int| 0 <= j < w ==> old(self).cookies@[j].0@ != name@;
                    assert(w == i as int);
                }
                return ;
            }
            i = i + 1;
        }
        self.cookies.push((name.to_owned(), value.to_owned()));
        proof {
            assert(forall|j: int| 0 <= j < old(self).cookies@.len()
                ==> old(self).cookies@[j].0@ != name@);
        }
    }

    /// Re-reads what a fetched page says about the session: the rotated
    /// anti-CSRF token when the page declares one, and the signed-in
    /// user's name from the current-user panel.
    pub fn update_userinfo(&mut self, page: &Page, raw: &str)
        ensures
            match security_key_of(raw@) {
                Some(k) => final(self).security_ls_key@ == k,
                None => final(self).security_ls_key == old(self).security_ls_key,
            },
            final(self).name@ == username_of(page.nodes@),
            final(self).host == old(self).host,
            final(self).cookies == old(self).cookies,
    {
        match extract_security_key(raw) {
            Some(k) => {
                self.security_ls_key = k;
            },
            None => {},
        }
        let dd_pred = Pred::by_attr("id", "dropdown-user");
        let dd = find_first(page, None, &dd_pred);
        proof {
            lemma_found_first_is(page.nodes@, None, pv_attr("id"@, "dropdown-user"@), dd);
        }
        match dd {
            None => {
                self.name = String::new();
            },
            Some(d) => {
                let mut scope: Vec<usize> = Vec::new();
                scope.push(d);
                proof {
                    assert(scope@ =~= seq![d]);
                }
                let u_pred = Pred::by_class("username");
                let u = find_first(page, Some(&scope), &u_pred);
                proof {
                    lemma_found_first_is(page.nodes@, Some(scope@), pv_class("username"@), u);
                }
                match u {
                    None => {
                        self.name = String::new();
                    },
                    Some(uu) => {
                        self.name = page.text_of(uu);
                    },
                }
            },
        }
    }

    /// Builds the multipart AJAX request for `url`, attaching the
    /// current anti-CSRF token ahead of the given fields.
    pub fn ajax_request(&self, url: &str, fields: &Vec<(String, String)>) -> (r: HttpRequest)
        ensures
            r.method == HttpMethod::PostMultipart,
            r.url@ == url@,
            r.referer is None,
            fields_with_key(self.security_ls_key@, fields@, r.fields@),
    {
        let mut out: Vec<(String, String)> = Vec::new();
        out.push(("security_ls_key".to_owned(), self.security_ls_key.clone()));
        let n = fields.len();
        let mut j: usize = 0;
        while j < n
            invariant
                n == fields@.len(),
                0 <= j <= n,
                out@.len() == j + 1,
                out@[0].0@ == "security_ls_key"@,
                out@[0].1@ == self.security_ls_key@,
                forall|t: int| 1 <= t <= j ==> (#[trigger] out@[t]).0@ == fields@[t - 1].0@
                    && out@[t].1@ == fields@[t - 1].1@,
            decreases n - j,
        {
            out.push((fields[j].0.clone(), fields[j].1.clone()));
            j = j + 1;
        }
        HttpRequest { method: HttpMethod::PostMultipart, url: url.to_owned(), fields: out, referer: None }
    }

    /// Builds the sign-in call: the credentials, the return path, and a
    /// remember-me flag, carried by the AJAX envelope.
    pub fn login_request(&self, login: &str, pass: &str) -> (r: HttpRequest)
        ensures
            r.method == HttpMethod::PostMultipart,
            r.url@ == "/login/ajax-login"@,
            r.referer is None,
            r.fields@.len() == 5,
            r.fields@[0].0@ == "security_ls_key"@ && r.fields@[0].1@ == self.security_ls_key@,
            r.fields@[1].0@ == "login"@ && r.fields@[1].1@ == login@,
            r.fields@[2].0@ == "password"@ && r.fields@[2].1@ == pass@,
            r.fields@[3].0@ == "return-path"@ && r.fields@[3].1@ == self.host@,
            r.fields@[4].0@ == "remember"@ && r.fields@[4].1@ == "on"@,
    {
        let mut fields: Vec<(String, String)> = Vec::new();
        fields.push(("login".to_owned(), login.to_owned()));
        fields.push(("password".to_owned(), pass.to_owned()));
        fields.push(("return-path".to_owned(), self.host.clone()));
        fields.push(("remember".to_owned(), "on".to_owned()));
        self.ajax_request("/login/ajax-login", &fields)
    }

    /// Decides what the sign-in reply means.  On a success payload the
    /// session's user name becomes the submitted login; on any error the
    /// session is unchanged and the error is surfaced.
    pub fn login_response(&mut self, login: &str, raw: &str) -> (r: TabunResult<()>)
        ensures
            match r {
                Ok(_) => decode_ajax_spec(raw@) is Object && final(self).name@ == login@
                    && final(self).security_ls_key == old(self).security_ls_key
                    && final(self).host == old(self).host
                    && final(self).cookies == old(self).cookies,
                Err(e) => *final(self) == *old(self) && match e {
                    TabunError::HackingAttempt => decode_ajax_spec(raw@) is Hacking,
                    TabunError::Error(t, m) => decode_ajax_spec(raw@) == AjaxDecoded::Envelope(
                        t@,
                        m@,
                    ),
                    TabunError::ParseError(_, _) => decode_ajax_spec(raw@) is Malformed,
                    _ => false,
                },
            },
    {
        match decode_ajax(raw) {
            Ok(_) => {
                self.name = login.to_owned();
                Ok(())
            },
            Err(e) => Err(e),
        }
    }

    /// Builds the toggle that adds an item to the favourites or removes
    /// it: `typ` picks adding, `fn_typ` picks a comment over a post.
    pub fn favourite_request(&self, id: u32, typ: bool, fn_typ: bool) -> (r: HttpRequest)
        ensures
            r.method == HttpMethod::PostMultipart,
            fn_typ ==> r.url@ == "/ajax/favourite/comment/"@,
            !fn_typ ==> r.url@ == "/ajax/favourite/topic/"@,
            r.referer is None,
            r.fields@.len() == 3,
            r.fields@[0].0@ == "security_ls_key"@ && r.fields@[0].1@ == self.security_ls_key@,
            fn_typ ==> r.fields@[1].0@ == "idComment"@,
            !fn_typ ==> r.fields@[1].0@ == "idTopic"@,
            r.fields@[1].1@ == dec_str(id as nat),
            r.fields@[2].0@ == "type"@,
            typ ==> r.fields@[2].1@ == "1"@,
            !typ ==> r.fields@[2].1@ == "0"@,
    {
        let mut fields: Vec<(String, String)> = Vec::new();
        let id_key = if fn_typ {
            "idComment"
        } else {
            "idTopic"
        };
        fields.push((id_key.to_owned(), u32_to_dec(id)));
        fields.push(("type".to_owned(), if typ {
            "1".to_owned()
        } else {
            "0".to_owned()
        }));
        let url = if fn_typ {
            "/ajax/favourite/comment/"
        } else {
            "/ajax/favourite/topic/"
        };
        self.ajax_request(url, &fields)
    }


    /// Builds the image-upload-by-address call.
    pub fn upload_image_request(&self, url: &str) -> (r: HttpRequest)
        ensures
            r.method == HttpMethod::PostMultipart,
            r.url@ == "/ajax/upload/image"@,
            r.referer is None,
            r.fields@.len() == 3,
            r.fields@[0].0@ == "security_ls_key"@ && r.fields@[0].1@ == self.security_ls_key@,
            r.fields@[1].0@ == "title"@ && r.fields@[1].1@ == ""@,
            r.fields@[2].0@ == "img_url"@ && r.fields@[2].1@ == url@,
    {
        let mut fields: Vec<(String, String)> = Vec::new();
        fields.push(("title".to_owned(), "".to_owned()));
        fields.push(("img_url".to_owned(), url.to_owned()));
        self.ajax_request("/ajax/upload/image", &fields)
    }

    /// Builds the subscribe/unsubscribe toggle for a post's comments.
    pub fn comments_subscribe_request(&self, post_id: u32, subscribed: bool) -> (r: HttpRequest)
        ensures
            r.method == HttpMethod::PostMultipart,
            r.url@ == "/subscribe/ajax-subscribe-toggle"@,
            r.referer is None,
            r.fields@.len() == 5,
            r.fields@[0].0@ == "security_ls_key"@ && r.fields@[0].1@ == self.security_ls_key@,
            r.fields@[1].0@ == "target_type"@ && r.fields@[1].1@ == "topic_new_comment"@,
            r.fields@[2].0@ == "target_id"@ && r.fields@[2].1@ == dec_str(post_id as nat),
            r.fields@[3].0@ == "value"@ && (if subscribed {
                r.fields@[3].1@ == "1"@
            } else {
                r.fields@[3].1@ == "0"@
            }),
            r.fields@[4].0@ == "mail"@ && r.fields@[4].1@ == ""@,
    {
        let mut fields: Vec<(String, String)> = Vec::new();
        fields.push(("target_type".to_owned(), "topic_new_comment".to_owned()));
        fields.push(("target_id".to_owned(), u32_to_dec(post_id)));
        fields.push(("value".to_owned(), if subscribed {
            "1".to_owned()
        } else {
            "0".to_owned()
        }));
        fields.push(("mail".to_owned(), "".to_owned()));
        self.ajax_request("/subscribe/ajax-subscribe-toggle", &fields)
    }
}

/// Decides what a subscribe-toggle reply means: any success payload is
/// success, errors are surfaced as decoded.
pub fn subscribe_response(raw: &str) -> (r: TabunResult<()>)
    ensures
        match r {
            Ok(_) => decode_ajax_spec(raw@) is Object,
            Err(e) => match e {
                TabunError::HackingAttempt => decode_ajax_spec(raw@) is Hacking,
                TabunError::Error(t, m) => decode_ajax_spec(raw@) == AjaxDecoded::Envelope(t@, m@),
                TabunError::ParseError(_, _) => decode_ajax_spec(raw@) is Malformed,
                _ => false,
            },
        },
{
    match decode_ajax(raw) {
        Ok(_) => Ok(()),
        Err(e) => Err(e),
    }
}

/// Decides what a favourite-toggle reply means: the new favourite count
/// from the payload's count field, or the decoded error; a payload
/// without a usable count is a parse error.
pub fn favourite_response(raw: &str) -> (r: TabunResult<u32>)
    ensures
        match r {
            Ok(v) => decode_ajax_spec(raw@) matches AjaxDecoded::Object(p) && id_field_spec(
                p,
                "/iCount"@,
            ) matches Some(c) && c <= u32::MAX && v == c,
            Err(e) => match e {
                TabunError::HackingAttempt => decode_ajax_spec(raw@) is Hacking,
                TabunError::Error(t, m) => decode_ajax_spec(raw@) == AjaxDecoded::Envelope(t@, m@),
                TabunError::ParseError(_, _) => decode_ajax_spec(raw@) is Malformed || (
                decode_ajax_spec(raw@) matches AjaxDecoded::Object(p) && (id_field_spec(
                    p,
                    "/iCount"@,
                ) is None || (id_field_spec(p, "/iCount"@) matches Some(c) && c > u32::MAX))),
                _ => false,
            },
        },
{
    let payload = match decode_ajax(raw) {
        Ok(p) => p,
        Err(e) => {
            return Err(e);
        },
    };
    match ajax_id_field(payload.as_str(), "/iCount") {
        Some(v) => {
            if v <= 0xffff_ffff {
                Ok(v as u32)
            } else {
                Err(TabunError::ParseError(
                    String::from_str("favourite"),
                    String::from_str("Server returned an out-of-range iCount"),
                ))
            }
        },
        None => Err(TabunError::ParseError(
            String::from_str("favourite"),
            String::from_str("Server did not return iCount"),
        )),
    }
}

/// The address of the first image of an HTML fragment, as the HTML
/// parser reads it; a function of the fragment alone.
pub uninterp spec fn img_src_of(s: Seq<char>) -> Option<Seq<char>>;

/// Relies on select's `Document::from`, `Document::find` with a
/// tag-name predicate, and `Node::attr`: the `src` attribute of the
/// fragment's first `img` element.
#[verifier::external_body]
fn first_img_src(s: &str) -> (r: Option<String>)
    ensures
        r matches Some(t) ==> img_src_of(s@) == Some(t@),
        r is None ==> img_src_of(s@) is None,
{
    select::document::Document::from(s)
        .find(select::predicate::Name("img"))
        .next()
        .and_then(|n| n.attr("src").map(|a| a.to_string()))
}

/// Decides what an image-upload reply means: the uploaded image's
/// address, recovered from the markup fragment in the payload's text
/// field; a payload without that field or without an image is a parse
/// error.
pub fn upload_image_response(raw: &str) -> (r: TabunResult<String>)
    ensures
        match r {
            Ok(src) => decode_ajax_spec(raw@) matches AjaxDecoded::Object(p) && json_str_at(
                p,
                "/sText"@,
            ) matches Some(t) && img_src_of(t) == Some(src@),
            Err(e) => match e {
                TabunError::HackingAttempt => decode_ajax_spec(raw@) is Hacking,
                TabunError::Error(t, m) => decode_ajax_spec(raw@) == AjaxDecoded::Envelope(t@, m@),
                TabunError::ParseError(_, _) => decode_ajax_spec(raw@) is Malformed || (
                decode_ajax_spec(raw@) matches AjaxDecoded::Object(p) && (json_str_at(
                    p,
                    "/sText"@,
                ) is None || (json_str_at(p, "/sText"@) matches Some(t) && img_src_of(t)
                    is None))),
                _ => false,
            },
        },
{
    let payload = match decode_ajax(raw) {
        Ok(p) => p,
        Err(e) => {
            return Err(e);
        },
    };
    let text = match json_str_field(payload.as_str(), "/sText") {
        Some(t) => t,
        None => {
            return Err(TabunError::ParseError(
                String::from_str("upload"),
                String::from_str("Server did not return sText"),
            ));
        },
    };
    match first_img_src(text.as_str()) {
        Some(src) => Ok(src),
        None => Err(TabunError::ParseError(
            String::from_str("upload"),
            String::from_str("Cannot parse response from server"),
        )),
    }
}



/// Step-by-step construction of a session, mirroring how a caller
/// supplies credentials, an existing session cookie, or another host.
#[derive(Debug, Clone)]
pub struct TClientBuilder {
    pub login: String,
    pub pass: String,
    pub session_id: String,
    pub security_ls_key: String,
    pub key: String,
    pub host: String,
    pub session_id_name: String,
}

impl TClientBuilder {
    /// A builder with nothing set: anonymous, default host, the default
    /// session-cookie name.
    pub fn new() -> (r: TClientBuilder)
        ensures
            r.login@ == Seq::<char>::empty(),
            r.pass@ == Seq::<char>::empty(),
            r.session_id@ == Seq::<char>::empty(),
            r.security_ls_key@ == Seq::<char>::empty(),
            r.key@ == Seq::<char>::empty(),
            r.host@ == HOST_URL@,
            r.session_id_name@ == "TABUNSESSIONID"@,
    {
        TClientBuilder {
            login: String::new(),
            pass: String::new(),
            session_id: String::new(),
            security_ls_key: String::new(),
            key: String::new(),
            host: HOST_URL.to_owned(),
            session_id_name: "TABUNSESSIONID".to_owned(),
        }
    }

    /// Sets the login to sign in with.
    pub fn login(self, login: &str) -> (r: TClientBuilder)
        ensures
            r.login@ == login@,
            r.pass == self.pass,
            r.session_id == self.session_id,
            r.security_ls_key == self.security_ls_key,
            r.key == self.key,
            r.host == self.host,
            r.session_id_name == self.session_id_name,
    {
        TClientBuilder { login: login.to_owned(), ..self }
    }

    /// Sets the password to sign in with.
    pub fn pass(self, pass: &str) -> (r: TClientBuilder)
        ensures
            r.pass@ == pass@,
            r.login == self.login,
            r.session_id == self.session_id,
            r.security_ls_key == self.security_ls_key,
            r.key == self.key,
            r.host == self.host,
            r.session_id_name == self.session_id_name,
    {
        TClientBuilder { pass: pass.to_owned(), ..self }
    }

    /// Sets an existing session cookie to resume.
    pub fn session_id(self, session_id: &str) -> (r: TClientBuilder)
        ensures
            r.session_id@ == session_id@,
            r.login == self.login,
            r.pass == self.pass,
            r.security_ls_key == self.security_ls_key,
            r.key == self.key,
            r.host == self.host,
            r.session_id_name == self.session_id_name,
    {
        TClientBuilder { session_id: session_id.to_owned(), ..self }
    }

    /// Sets an anti-CSRF token known in advance.
    pub fn security_ls_key(self, security_ls_key: &str) -> (r: TClientBuilder)
        ensures
            r.security_ls_key@ == security_ls_key@,
            r.login == self.login,
            r.pass == self.pass,
            r.session_id == self.session_id,
            r.key == self.key,
            r.host == self.host,
            r.session_id_name == self.session_id_name,
    {
        TClientBuilder { security_ls_key: security_ls_key.to_owned(), ..self }
    }

    /// Sets the long-lived `key` cookie.
    pub fn key(self, key: &str) -> (r: TClientBuilder)
        ensures
            r.key@ == key@,
            r.login == self.login,
            r.pass == self.pass,
            r.session_id == self.session_id,
            r.security_ls_key == self.security_ls_key,
            r.host == self.host,
            r.session_id_name == self.session_id_name,
    {
        TClientBuilder { key: key.to_owned(), ..self }
    }

    /// Sets the host to talk to.
    pub fn host(self, host: &str) -> (r: TClientBuilder)
        ensures
            r.host@ == host@,
            r.login == self.login,
            r.pass == self.pass,
            r.session_id == self.session_id,
            r.security_ls_key == self.security_ls_key,
            r.key == self.key,
            r.session_id_name == self.session_id_name,
    {
        TClientBuilder { host: host.to_owned(), ..self }
    }

    /// Sets the name of the session cookie.
    pub fn session_id_name(self, session_id_name: &str) -> (r: TClientBuilder)
        ensures
            r.session_id_name@ == session_id_name@,
            r.login == self.login,
            r.pass == self.pass,
            r.session_id == self.session_id,
            r.security_ls_key == self.security_ls_key,
            r.key == self.key,
            r.host == self.host,
    {
        TClientBuilder { session_id_name: session_id_name.to_owned(), ..self }
    }

    /// The session the builder describes, before any exchange: the token
    /// and host carried over, and the supplied cookies in the jar.  The
    /// caller then fetches the site root, feeds the reply to
    /// `update_userinfo`, and signs in when it still has no name.
    pub fn finalize(&self) -> (r: TClient)
        ensures
            r.name@ == Seq::<char>::empty(),
            r.security_ls_key@ == self.security_ls_key@,
            r.host@ == self.host@,
            r.cookies@.len() == (if self.session_id@.len() > 0 {
                1int
            } else {
                0int
            }) + (if self.key@.len() > 0 {
                1int
            } else {
                0int
            }),
            self.session_id@.len() > 0 ==> r.cookies@[0].0@ == self.session_id_name@
                && r.cookies@[0].1@ == self.session_id@,
            self.key@.len() > 0 ==> r.cookies@[r.cookies@.len() - 1].0@ == "key"@
                && r.cookies@[r.cookies@.len() - 1].1@ == self.key@,
    {
        let mut cookies: Vec<(String, String)> = Vec::new();
        if self.session_id.as_str().unicode_len() > 0 {
            cookies.push((self.session_id_name.clone(), self.session_id.clone()));
        }
        if self.key.as_str().unicode_len() > 0 {
            cookies.push(("key".to_owned(), self.key.clone()));
        }
        TClient {
            name: String::new(),
            security_ls_key: self.security_ls_key.clone(),
            host: self.host.clone(),
            cookies,
        }
    }
}

} // verus!
