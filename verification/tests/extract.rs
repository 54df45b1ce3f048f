//! The extractors, on pages parsed from markup fixtures.

use libtabun::comments::doc_get_comments;
use libtabun::dom::parse_page;
use libtabun::posts::{
    doc_get_blog_id, doc_get_editable_poll, doc_get_editable_post, doc_get_post, doc_get_posts,
};
use libtabun::profile::doc_get_profile;
use libtabun::talks::{doc_get_talk, doc_get_talks};

fn comment_page() -> String {
    "<html><body><div class=\"comments\"><div class=\"comment\" id=\"comment_wrapper_3927613\"><ul><li class=\"vote\" id=\"vote_area_comment_3927613\"><span class=\"vote-count\">+1</span></li><li class=\"comment-author\"><a href=\"https://tabun.everypony.ru/profile/Orhideous/\">Orhideous</a></li></ul><time datetime=\"2013-06-16T15:00:06+04:00\"></time><div class=\"text\">нежданчик</div></div><div class=\"comment comment-deleted\" id=\"comment_wrapper_555\"></div></div></body></html>"
    .to_string()
}

#[test]
fn comments_of_a_post_page() {
    let page = parse_page(&comment_page());
    let comments = doc_get_comments(&page, Some("/blog/news/67052.html")).expect("should extract");
    assert_eq!(comments.len(), 2);
    let c = &comments[&3927613];
    assert!(c.body.contains("нежданчик"));
    assert_eq!(c.votes, 1);
    assert_eq!(c.parent, 0);
    assert_eq!(c.post_id, 67052);
    assert_eq!(c.author, "Orhideous");
    assert_eq!(c.date, "2013-06-16T15:00:06+04:00");
    assert!(!c.deleted);
}

#[test]
fn deleted_comments_are_empty_sentinels() {
    let page = parse_page(&comment_page());
    let comments = doc_get_comments(&page, Some("/blog/news/67052.html")).expect("should extract");
    let d = &comments[&555];
    assert!(d.deleted);
    assert_eq!(d.body, "");
    assert_eq!(d.author, "");
    assert_eq!(d.date, "");
    assert_eq!(d.votes, 0);
    assert_eq!(d.parent, 0);
    assert_eq!(d.post_id, 67052);
}

#[test]
fn post_ids_are_uniform_within_one_fetch() {
    let page = parse_page(&comment_page());
    let comments = doc_get_comments(&page, Some("/blog/news/67052.html")).expect("should extract");
    for (_, c) in &comments {
        assert_eq!(c.post_id, 67052);
    }
    // Without an address the ids default to zero.
    let bare = doc_get_comments(&page, None).expect("should extract");
    for (_, c) in &bare {
        assert_eq!(c.post_id, 0);
    }
}

#[test]
fn a_feed_comment_names_its_own_post() {
    let html = "<html><body><div class=\"comments\"><div class=\"comment\" id=\"comment_wrapper_10\"><a class=\"comment-path-topic\" href=\"https://tabun.everypony.ru/blog/x/999.html\">topic</a><ul><li class=\"comment-author\"><a href=\"https://tabun.everypony.ru/profile/U/\">U</a></li></ul><time datetime=\"2016-01-01T00:00:00+03:00\"></time><div class=\"text\">b</div></div></div></body></html>";
    let page = parse_page(html);
    let comments = doc_get_comments(&page, None).expect("should extract");
    assert_eq!(comments[&10].post_id, 999);
    assert_eq!(comments[&10].votes, 0);
}

#[test]
fn an_absent_container_means_no_comments() {
    let page = parse_page("<html><body><p>nothing here</p></body></html>");
    let comments = doc_get_comments(&page, None).expect("should extract");
    assert!(comments.is_empty());
}

fn post_page() -> String {
    "<html><body><div class=\"vote-topic\" id=\"vote_area_topic_157198\"></div><h1 class=\"topic-title\">Заголовок</h1><div class=\"topic-content\">  <b>тело</b>  </div><ul><li class=\"topic-info-date\"><time datetime=\"2013-06-16T15:00:06+04:00\"></time></li></ul><a rel=\"tag\">успех</a><a rel=\"tag\">паника</a><span id=\"count-comments\">5</span><div class=\"topic-info\"><a rel=\"author\">Orhideous</a></div></body></html>"
    .to_string()
}

#[test]
fn a_post_page_yields_its_record() {
    let page = parse_page(&post_page());
    let p = doc_get_post(&page).expect("should extract");
    assert_eq!(p.id, 157198);
    assert_eq!(p.title, "Заголовок");
    assert_eq!(p.body, "<b>тело</b>");
    assert_eq!(p.date, "2013-06-16T15:00:06+04:00");
    assert_eq!(p.author, "Orhideous");
    assert_eq!(p.comments_count, 5);
    assert!(p.tags.contains(&"успех".to_string()));
    assert_eq!(p.tags.len(), 2);
}

#[test]
fn a_list_page_yields_a_record_per_article() {
    let html = "<html><body><article><div class=\"vote-topic\" id=\"vote_area_topic_11\"></div><h1 class=\"topic-title\">One</h1><div class=\"topic-content\">first</div><ul><li class=\"topic-info-date\"><time datetime=\"d1\"></time></li><li class=\"topic-info-comments\"><span>7</span></li></ul><div class=\"topic-info\"><a rel=\"author\">A1</a></div></article><article><div class=\"vote-topic\" id=\"vote_area_topic_12\"></div><h1 class=\"topic-title\">Two</h1><div class=\"topic-content\">second</div><ul><li class=\"topic-info-date\"><time datetime=\"d2\"></time></li><li class=\"topic-info-comments\"><span>0</span></li></ul><div class=\"topic-info\"><a rel=\"author\">A2</a></div></article></body></html>";
    let page = parse_page(html);
    let posts = doc_get_posts(&page).expect("should extract");
    assert_eq!(posts.len(), 2);
    assert_eq!(posts[0].id, 11);
    assert_eq!(posts[0].title, "One");
    assert_eq!(posts[0].comments_count, 7);
    assert_eq!(posts[0].author, "A1");
    assert_eq!(posts[1].id, 12);
    assert_eq!(posts[1].date, "d2");
}

#[test]
fn an_edit_page_yields_its_raw_fields() {
    let html = "<html><body><input id=\"topic_title\" value=\"Название\"><textarea id=\"topic_text\">Текст поста</textarea><input id=\"topic_tags\" value=\"тэг раз,тэг два\"></body></html>";
    let page = parse_page(html);
    let p = doc_get_editable_post(&page).expect("should extract");
    assert_eq!(p.title, "Название");
    assert_eq!(p.body, "Текст поста");
    assert_eq!(p.tags, vec!["тэг раз", "тэг два"]);
    let q = doc_get_editable_poll(&page).expect("should extract");
    assert_eq!(q.title, p.title);
}

#[test]
fn a_blog_page_yields_its_id() {
    let html = "<html><body><div class=\"vote-item\"><span id=\"vote_item_blog_15558\"></span></div></body></html>";
    let page = parse_page(html);
    assert_eq!(doc_get_blog_id(&page), Ok(15558));
}

#[test]
fn a_talk_page_yields_the_conversation() {
    let html = "<html><body><h1 class=\"topic-title\">Тема</h1><div class=\"topic-content\"> привет </div><ul><li class=\"topic-info-date\"><time datetime=\"d0\"></time></li></ul><div class=\"talk-recipients-header\"><a class=\"username js-x\">User1</a><a class=\"username\">User2</a><a href=\"#\">not a user</a></div><div class=\"comments\"><div class=\"comment\" id=\"comment_wrapper_9\"><ul><li class=\"comment-author\"><a href=\"https://tabun.everypony.ru/profile/U/\">U</a></li></ul><time datetime=\"d9\"></time><div class=\"text\">reply</div></div></div></body></html>";
    let page = parse_page(html);
    let t = doc_get_talk(&page, Some(123)).expect("should extract");
    assert_eq!(t.title, "Тема");
    assert_eq!(t.body, "привет");
    assert_eq!(t.date, "d0");
    assert_eq!(t.users, vec!["User1", "User2"]);
    assert_eq!(t.comments.len(), 1);
    // The conversation address carries no `.html` id, so the owning id
    // defaults to zero, as it does for the live site.
    assert_eq!(t.comments[&9].post_id, 0);
}

#[test]
fn the_inbox_yields_a_row_per_conversation() {
    let html = "<html><body><table><tbody><tr><td><a class=\"js-title-talk\" href=\"https://tabun.everypony.ru/talk/read/2030/\">Letter</a></td><td class=\"cell-recipients\"><a class=\"username\">P1</a><a class=\"username\">P2</a></td></tr></tbody></table></body></html>";
    let page = parse_page(html);
    let rows = doc_get_talks(&page).expect("should extract");
    assert_eq!(rows.len(), 1);
    assert_eq!(rows[0].id, 2030);
    assert_eq!(rows[0].title, "Letter");
    assert_eq!(rows[0].users, vec!["P1", "P2"]);
}

#[test]
fn a_profile_page_yields_the_record() {
    let html = "<html><body><div class=\"profile\"><h2 itemprop=\"nickname\">Orhideous</h2><p itemprop=\"name\">Андрій</p><div class=\"strength\"><div id=\"strength_id_40000\">7.77</div></div><div class=\"vote-count\"><span>666.54</span></div></div><div class=\"profile-info-about\"><div class=\"avatar\"><img src=\"//cdn.example/a.png\"></div><div class=\"text\">обо мне</div></div><ul class=\"profile-dotted-list\"><li><span>decoy</span><strong>x</strong></li></ul><ul class=\"profile-dotted-list\"><li><span>Создал:</span><strong><a>B1</a><a>B2</a></strong></li><li><span>Состоит в:</span><strong><a>B3</a></strong></li><li><span>Родился:</span><strong>1 января</strong></li></ul><ul class=\"nav-profile\"><li><a>Инфо</a></li><li><a>Публикации (10)</a></li><li><a>Избранное (2)</a></li><li><a>Друзья (3)</a></li></ul></body></html>";
    let page = parse_page(html);
    let u = doc_get_profile(&page).expect("should extract");
    assert_eq!(u.username, "Orhideous");
    assert_eq!(u.realname, "Андрій");
    assert_eq!(u.skill, "7.77");
    assert_eq!(u.id, 40000);
    assert_eq!(u.rating, "666.54");
    assert_eq!(u.userpic, "//cdn.example/a.png");
    assert_eq!(u.description, "обо мне");
    assert_eq!(u.blogs.created, vec!["B1", "B2"]);
    assert_eq!(u.blogs.member, vec!["B3"]);
    assert!(u.blogs.admin.is_empty());
    assert_eq!(u.other_info.len(), 1);
    assert_eq!(u.other_info[0].0, "Родился");
    assert_eq!(u.other_info[0].1, "1 января");
    assert_eq!(u.publications, 10);
    assert_eq!(u.favourites, 2);
    assert_eq!(u.friends, 3);
}

#[test]
fn a_profile_without_its_parts_is_refused() {
    let page = parse_page("<html><body></body></html>");
    assert!(doc_get_profile(&page).is_err());
}

#[test]
fn a_reply_names_its_parent() {
    let html = "<html><body><div class=\"comments\">\
        <div class=\"comment\" id=\"comment_wrapper_20\">\
        <div class=\"goto-comment-parent\">\
        <a href=\"https://tabun.everypony.ru/blog/x/1.html#comment/777\">up</a></div>\
        <ul><li class=\"comment-author\">\
        <a href=\"https://tabun.everypony.ru/profile/U/\">U</a></li></ul>\
        <time datetime=\"d\"></time>\
        <div class=\"text\">child</div>\
        </div></div></body></html>";
    let page = parse_page(html);
    let comments = doc_get_comments(&page, None).expect("should extract");
    assert_eq!(comments[&20].parent, 777);
}

#[test]
fn a_comment_missing_its_body_fails_the_call() {
    let html = "<html><body><div class=\"comments\">\
        <div class=\"comment\" id=\"comment_wrapper_30\">\
        <ul><li class=\"comment-author\">\
        <a href=\"https://tabun.everypony.ru/profile/U/\">U</a></li></ul>\
        <time datetime=\"d\"></time>\
        </div></div></body></html>";
    let page = parse_page(html);
    match doc_get_comments(&page, None) {
        Err(libtabun::TabunError::ParseError(_, _)) => {},
        other => panic!("expected a parse error, got {:?}", other),
    }
}

#[test]
fn a_post_page_missing_its_title_fails_the_call() {
    let html = "<html><body>\
        <div class=\"vote-topic\" id=\"vote_area_topic_1\"></div>\
        </body></html>";
    let page = parse_page(html);
    match doc_get_post(&page) {
        Err(libtabun::TabunError::ParseError(_, _)) => {},
        other => panic!("expected a parse error, got {:?}", other),
    }
}
