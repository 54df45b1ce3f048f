//! The id micro-parsers and the session state machine, on concrete
//! values.

use libtabun::ids::{last_seg_u32, post_id_from_location, seg_u32, seg_u64, talk_id_from_location};
use libtabun::posts::post_location_response;
use libtabun::session::{extract_security_key, TClient, TClientBuilder, HttpMethod};
use libtabun::talks::{add_talk_response, TalkError};
use libtabun::TabunError;

#[test]
fn vote_widget_segments_carry_ids() {
    assert_eq!(last_seg_u32("vote_item_blog_15558"), Some(15558));
    assert_eq!(seg_u64("vote_area_comment_3927613", 3), Some(3927613));
    assert_eq!(seg_u64("comment_wrapper_77", 2), Some(77));
    assert_eq!(seg_u32("strength_id_40000", 2), Some(40000));
    assert_eq!(last_seg_u32("vote_item_blog_x"), None);
}

#[test]
fn redirect_addresses_carry_post_ids() {
    assert_eq!(
        post_id_from_location("https://tabun.everypony.ru/blog/mycat/98765.html"),
        Some(98765)
    );
    assert_eq!(post_id_from_location("https://tabun.everypony.ru/blog/mycat/"), None);
    assert_eq!(post_location_response(Some(".../blog/mycat/98765.html")), Ok(98765));
    match post_location_response(None) {
        Err(TabunError::ParseError(_, _)) => {},
        other => panic!("expected a parse error, got {:?}", other),
    }
}

#[test]
fn redirect_addresses_carry_talk_ids() {
    assert_eq!(
        talk_id_from_location("https://tabun.everypony.ru/talk/read/2030/"),
        Some(2030)
    );
    assert_eq!(talk_id_from_location("https://tabun.everypony.ru/talk/2030/"), None);
    match add_talk_response(Some(".../talk/read/41/")) {
        Ok(v) => assert_eq!(v, 41),
        other => panic!("expected the id, got {:?}", other),
    }
    match add_talk_response(None) {
        Err(TalkError::NoMembers) => {},
        other => panic!("expected the no-members error, got {:?}", other),
    }
}

#[test]
fn the_token_is_read_from_the_page_text() {
    let page = "var x = 1;\nLIVESTREET_SECURITY_KEY = 'abc123';\nvar y = 2;";
    assert_eq!(extract_security_key(page), Some("abc123".to_string()));
    assert_eq!(extract_security_key("no token here"), None);
    // An empty token is refused, as the declaration demands content.
    assert_eq!(extract_security_key("LIVESTREET_SECURITY_KEY = ''"), None);
}

#[test]
fn login_scenario_sets_name_and_token() {
    let mut t = TClient::new();
    let page_html = "<html><body></body></html>";
    let page = libtabun::dom::parse_page(page_html);
    t.update_userinfo(&page, "LIVESTREET_SECURITY_KEY = 'abc123';");
    assert_eq!(t.security_ls_key, "abc123");
    assert_eq!(t.name, "");
    let r = t.login_response("rarity", r#"{"bStateError": false}"#);
    assert_eq!(r, Ok(()));
    assert_eq!(t.name, "rarity");
    assert_eq!(t.security_ls_key, "abc123");
}

#[test]
fn failed_login_leaves_the_session_alone() {
    let mut t = TClient::new();
    let page = libtabun::dom::parse_page("<html></html>");
    t.update_userinfo(&page, "LIVESTREET_SECURITY_KEY = 'k1';");
    let r = t.login_response(
        "rarity",
        r#"{"bStateError": true, "sMsgTitle": "Ошибка", "sMsg": "bad password"}"#,
    );
    match r {
        Err(TabunError::Error(title, msg)) => {
            assert_eq!(title, "Ошибка");
            assert_eq!(msg, "bad password");
        },
        other => panic!("expected the structured error, got {:?}", other),
    }
    assert_eq!(t.name, "");
    assert_eq!(t.security_ls_key, "k1");
}

#[test]
fn the_username_panel_names_the_session() {
    let html = "<html><body><div id=\"dropdown-user\"><a class=\"username\">Orhideous</a></div></body></html>";
    let page = libtabun::dom::parse_page(html);
    let mut t = TClient::new();
    t.update_userinfo(&page, "");
    assert_eq!(t.name, "Orhideous");
}

#[test]
fn the_token_rotates_on_every_page() {
    let mut t = TClient::new();
    let page = libtabun::dom::parse_page("<html></html>");
    t.update_userinfo(&page, "LIVESTREET_SECURITY_KEY = 'first';");
    assert_eq!(t.security_ls_key, "first");
    t.update_userinfo(&page, "LIVESTREET_SECURITY_KEY = 'second';");
    assert_eq!(t.security_ls_key, "second");
    // A page without a declaration keeps the token as it is.
    t.update_userinfo(&page, "nothing embedded");
    assert_eq!(t.security_ls_key, "second");
}

#[test]
fn cookies_accumulate_and_replace_by_name() {
    let mut t = TClient::new();
    t.set_cookie("TABUNSESSIONID", "one");
    t.set_cookie("key", "k");
    t.set_cookie("TABUNSESSIONID", "two");
    assert_eq!(
        t.cookies,
        vec![
            ("TABUNSESSIONID".to_string(), "two".to_string()),
            ("key".to_string(), "k".to_string())
        ]
    );
}

#[test]
fn the_builder_carries_its_settings_into_the_session() {
    let t = TClientBuilder::new()
        .session_id("t15sacuhntote9h99190vtne1m")
        .key("329tZL5OoJRvw6SxcmLpfMFXCt7mfjcU")
        .host("http://tabun-dev.localhost")
        .finalize();
    assert_eq!(t.name, "");
    assert_eq!(t.host, "http://tabun-dev.localhost");
    assert_eq!(t.cookies.len(), 2);
    assert_eq!(t.cookies[0].0, "TABUNSESSIONID");
    assert_eq!(t.cookies[0].1, "t15sacuhntote9h99190vtne1m");
    assert_eq!(t.cookies[1].0, "key");
}

#[test]
fn requests_carry_the_token_first() {
    let mut t = TClient::new();
    let page = libtabun::dom::parse_page("<html></html>");
    t.update_userinfo(&page, "LIVESTREET_SECURITY_KEY = 'tok';");
    let r = t.login_request("user", "pass");
    assert_eq!(r.method, HttpMethod::PostMultipart);
    assert_eq!(r.url, "/login/ajax-login");
    assert_eq!(r.fields[0], ("security_ls_key".to_string(), "tok".to_string()));
    assert_eq!(r.fields[1], ("login".to_string(), "user".to_string()));
    assert_eq!(r.fields[2], ("password".to_string(), "pass".to_string()));
    assert_eq!(r.fields[4], ("remember".to_string(), "on".to_string()));

    let f = t.favourite_request(12345, true, true);
    assert_eq!(f.url, "/ajax/favourite/comment/");
    assert_eq!(f.fields[1], ("idComment".to_string(), "12345".to_string()));
    assert_eq!(f.fields[2], ("type".to_string(), "1".to_string()));

    let s = t.comments_subscribe_request(157198, false);
    assert_eq!(s.url, "/subscribe/ajax-subscribe-toggle");
    assert_eq!(s.fields[2], ("target_id".to_string(), "157198".to_string()));
    assert_eq!(s.fields[3], ("value".to_string(), "0".to_string()));
}

#[test]
fn delete_requests_put_the_token_in_the_address() {
    let mut t = TClient::new();
    let page = libtabun::dom::parse_page("<html></html>");
    t.update_userinfo(&page, "LIVESTREET_SECURITY_KEY = 'tok';");
    let d = t.delete_post_request(157198);
    assert_eq!(d.method, HttpMethod::Get);
    assert_eq!(d.url, "/topic/delete/157198/?security_ls_key=tok");
    assert_eq!(
        d.referer.as_deref(),
        Some("https://tabun.everypony.ru/blog/157198.html")
    );
    let dt = t.delete_talk_request(2030);
    assert_eq!(dt.url, "/talk/delete/2030/?security_ls_key=tok");
    assert_eq!(
        dt.referer.as_deref(),
        Some("https://tabun.everypony.ru/talk/read/2030/")
    );
}

#[test]
fn delete_status_is_classified() {
    assert_eq!(libtabun::posts::delete_response(200), Ok(()));
    assert_eq!(
        libtabun::posts::delete_response(404),
        Err(TabunError::NumError(404))
    );
}
