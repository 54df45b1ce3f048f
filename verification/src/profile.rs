//! Profile extraction.
//!
//! A profile page carries the user's name and strength inside the profile
//! block, a free-form dotted list whose labelled entries are sorted into
//! blog lists by known label substrings (everything else lands in a
//! key/value list), and a navigation bar whose tab captions embed
//! parenthesized counters.  The strength and rating are fractional and
//! are kept as the page's own text.

use vstd::prelude::*;

verus! {

use vstd::string::StrSliceExecFns;

use crate::ids::{seg_u32, seg_u32_spec};
use crate::page::{
    attr_of, ff_within, find_all, find_all_within, find_first_in, find_first_scoped,
    find_first_scoped_under, find_first_triple, first_hit_of, first_in, first_scoped_hit,
    first_scoped_under, first_triple_of, lemma_first_hit_sound, lemma_scoped_first_sound,
    lemma_the_hits_is, lemma_triple_first_sound, pv_class, pv_tag, pv_tag_attr, pv_tag_class,
    the_hits, Page, PageNode, Pred, PredView,
};
use crate::text::{
    has_sub, nth_segment, nth_segment_spec, pairs_view, parse_u32, str_contains, strs_view,
    u32_parse_spec, without_char, without_char_spec,
};
use crate::{InBlogs, TabunError, TabunResult, UserInfo};

/// The predicate for the profile block.
pub open spec fn profile_block() -> PredView {
    pv_tag_class("div"@, "profile"@)
}

/// The username shown on the profile page.
pub open spec fn profile_username_of(nodes: Seq<PageNode>) -> Result<Seq<char>, ()> {
    match first_scoped_hit(nodes, profile_block(), pv_tag_attr("h2"@, "itemprop"@, "nickname"@)) {
        Some(t) => Ok(nodes[t].text@),
        None => Err(()),
    }
}

/// The real name, empty when the page shows none.
pub open spec fn profile_realname_of(nodes: Seq<PageNode>) -> Seq<char> {
    match first_scoped_hit(nodes, profile_block(), pv_tag_attr("p"@, "itemprop"@, "name"@)) {
        Some(t) => nodes[t].text@,
        None => Seq::empty(),
    }
}

/// The strength element: the inner div of the strength block.
pub open spec fn skill_area_of(nodes: Seq<PageNode>) -> Option<int> {
    first_triple_of(nodes, profile_block(), pv_tag_class("div"@, "strength"@), pv_tag("div"@))
}

/// The strength, as the page's own decimal text.
pub open spec fn profile_skill_of(nodes: Seq<PageNode>) -> Result<Seq<char>, ()> {
    match skill_area_of(nodes) {
        Some(el) => Ok(nodes[el].text@),
        None => Err(()),
    }
}

/// The user's numeric id: the third underscore segment of the strength
/// element's id.
pub open spec fn profile_user_id_of(nodes: Seq<PageNode>) -> Result<u32, ()> {
    match skill_area_of(nodes) {
        Some(el) => match attr_of(nodes[el], "id"@) {
            Some(a) => match seg_u32_spec(a, 2) {
                Some(v) => Ok(v),
                None => Err(()),
            },
            None => Err(()),
        },
        None => Err(()),
    }
}

/// The rating, as the page's own decimal text.
pub open spec fn profile_rating_of(nodes: Seq<PageNode>) -> Result<Seq<char>, ()> {
    match first_triple_of(nodes, profile_block(), pv_class("vote-count"@), pv_tag("span"@)) {
        Some(el) => Ok(nodes[el].text@),
        None => Err(()),
    }
}

/// The about block of the page.
pub open spec fn about_of(nodes: Seq<PageNode>) -> Option<int> {
    first_hit_of(nodes, None, pv_tag_class("div"@, "profile-info-about"@))
}

/// The avatar address inside the about block.
pub open spec fn profile_userpic_of(nodes: Seq<PageNode>) -> Result<Seq<char>, ()> {
    match about_of(nodes) {
        Some(ab) => match first_scoped_under(nodes, ab, pv_class("avatar"@), pv_tag("img"@)) {
            Some(img) => match attr_of(nodes[img], "src"@) {
                Some(src) => Ok(src),
                None => Err(()),
            },
            None => Err(()),
        },
        None => Err(()),
    }
}

/// The rendered self-description inside the about block.
pub open spec fn profile_description_of(nodes: Seq<PageNode>) -> Result<Seq<char>, ()> {
    match about_of(nodes) {
        Some(ab) => match first_in(nodes, ab, pv_tag_class("div"@, "text"@)) {
            Some(d) => Ok(nodes[d].inner_html@),
            None => Err(()),
        },
        None => Err(()),
    }
}

/// The blog lists and the free-form facts of the dotted list.
pub struct ProfileListsModel {
    pub created: Seq<Seq<char>>,
    pub admin: Seq<Seq<char>>,
    pub moderator: Seq<Seq<char>>,
    pub member: Seq<Seq<char>>,
    pub other: Seq<(Seq<char>, Seq<char>)>,
}

/// The empty dotted-list state.
pub open spec fn empty_lists() -> ProfileListsModel {
    ProfileListsModel {
        created: Seq::empty(),
        admin: Seq::empty(),
        moderator: Seq::empty(),
        member: Seq::empty(),
        other: Seq::empty(),
    }
}

/// The texts of the links below `root`, in document order.
pub open spec fn a_texts_of(nodes: Seq<PageNode>, root: int) -> Seq<Seq<char>> {
    let links = the_hits(nodes, Some(seq![root as usize]), pv_tag("a"@));
    Seq::new(links.len(), |j: int| nodes[links[j] as int].text@)
}

/// One dotted-list entry folded into the state: a known label replaces
/// the matching blog list with the entry's link texts; an unknown label
/// appends a fact, its colon stripped.
pub open spec fn li_step(nodes: Seq<PageNode>, acc: ProfileListsModel, li: int) -> Result<
    ProfileListsModel,
    (),
> {
    match first_in(nodes, li, pv_tag("span"@)) {
        None => Err(()),
        Some(sp) => {
            let name = nodes[sp].text@;
            match first_in(nodes, li, pv_tag("strong"@)) {
                None => Err(()),
                Some(st) => {
                    if has_sub(name, "Создал"@) {
                        Ok(ProfileListsModel { created: a_texts_of(nodes, st), ..acc })
                    } else if has_sub(name, "Администрирует"@) {
                        Ok(ProfileListsModel { admin: a_texts_of(nodes, st), ..acc })
                    } else if has_sub(name, "Модерирует"@) {
                        Ok(ProfileListsModel { moderator: a_texts_of(nodes, st), ..acc })
                    } else if has_sub(name, "Состоит"@) {
                        Ok(ProfileListsModel { member: a_texts_of(nodes, st), ..acc })
                    } else {
                        Ok(
                            ProfileListsModel {
                                other: acc.other.push(
                                    (without_char_spec(name, ':'), nodes[st].text@),
                                ),
                                ..acc
                            },
                        )
                    }
                },
            }
        },
    }
}

/// The dotted-list entries folded left to right.
pub open spec fn lists_fold(nodes: Seq<PageNode>, lis: Seq<usize>, acc: ProfileListsModel) -> Result<
    ProfileListsModel,
    (),
>
    decreases lis.len(),
{
    if lis.len() == 0 {
        Ok(acc)
    } else {
        match lists_fold(nodes, lis.drop_last(), acc) {
            Err(e) => Err(e),
            Ok(m) => li_step(nodes, m, lis.last() as int),
        }
    }
}

proof fn lemma_lists_fold_err(nodes: Seq<PageNode>, lis: Seq<usize>, i: int, acc: ProfileListsModel)
    requires
        0 <= i <= lis.len(),
        lists_fold(nodes, lis.subrange(0, i), acc) is Err,
    ensures
        lists_fold(nodes, lis, acc) is Err,
    decreases lis.len() - i,
{
    if i == lis.len() {
        assert(lis.subrange(0, i) =~= lis);
    } else {
        assert(lis.subrange(0, i + 1).drop_last() =~= lis.subrange(0, i));
        lemma_lists_fold_err(nodes, lis, i + 1, acc);
    }
}

/// The entries of the last dotted list on the page.
pub open spec fn dotted_lis_of(nodes: Seq<PageNode>) -> Seq<usize> {
    let uls = the_hits(nodes, None, pv_tag_class("ul"@, "profile-dotted-list"@));
    the_hits(nodes, Some(seq![uls.last()]), pv_tag("li"@))
}

/// The blog lists and facts of the page: the last dotted list's entries,
/// folded; absent when the page carries no dotted list at all.
pub open spec fn profile_lists_of(nodes: Seq<PageNode>) -> Result<ProfileListsModel, ()> {
    let uls = the_hits(nodes, None, pv_tag_class("ul"@, "profile-dotted-list"@));
    if uls.len() == 0 {
        Err(())
    } else {
        lists_fold(nodes, dotted_lis_of(nodes), empty_lists())
    }
}

/// One navigation tab folded into the counters: a parenthesized number
/// lands in the counter its caption names, captions without one and the
/// info tab are passed over.
pub open spec fn nav_step(nodes: Seq<PageNode>, acc: (u32, u32, u32), li: int) -> Result<
    (u32, u32, u32),
    (),
> {
    match first_in(nodes, li, pv_tag("a"@)) {
        None => Err(()),
        Some(a) => {
            let t = nodes[a].text@;
            if has_sub(t, "Инфо"@) {
                Ok(acc)
            } else {
                match nth_segment_spec(t, '(', 1) {
                    None => Ok(acc),
                    Some(seg) => match u32_parse_spec(without_char_spec(seg, ')')) {
                        None => Err(()),
                        Some(v) => {
                            let head = match nth_segment_spec(t, '(', 0) {
                                Some(h) => h,
                                None => Seq::empty(),
                            };
                            if has_sub(head, "Публикации"@) {
                                Ok((v, acc.1, acc.2))
                            } else if has_sub(head, "Избранное"@) {
                                Ok((acc.0, v, acc.2))
                            } else {
                                Ok((acc.0, acc.1, v))
                            }
                        },
                    },
                }
            }
        },
    }
}

/// The navigation tabs folded left to right.
pub open spec fn nav_fold(nodes: Seq<PageNode>, lis: Seq<usize>, acc: (u32, u32, u32)) -> Result<
    (u32, u32, u32),
    (),
>
    decreases lis.len(),
{
    if lis.len() == 0 {
        Ok(acc)
    } else {
        match nav_fold(nodes, lis.drop_last(), acc) {
            Err(e) => Err(e),
            Ok(m) => nav_step(nodes, m, lis.last() as int),
        }
    }
}

proof fn lemma_nav_fold_err(nodes: Seq<PageNode>, lis: Seq<usize>, i: int, acc: (u32, u32, u32))
    requires
        0 <= i <= lis.len(),
        nav_fold(nodes, lis.subrange(0, i), acc) is Err,
    ensures
        nav_fold(nodes, lis, acc) is Err,
    decreases lis.len() - i,
{
    if i == lis.len() {
        assert(lis.subrange(0, i) =~= lis);
    } else {
        assert(lis.subrange(0, i + 1).drop_last() =~= lis.subrange(0, i));
        lemma_nav_fold_err(nodes, lis, i + 1, acc);
    }
}

/// The navigation tabs of the page.
pub open spec fn nav_lis_of(nodes: Seq<PageNode>) -> Seq<usize> {
    the_hits(nodes, Some(the_hits(nodes, None, pv_class("nav-profile"@))), pv_tag("li"@))
}

/// The publication, favourite and friend counters of the page, zero when
/// never shown.
pub open spec fn profile_counts_of(nodes: Seq<PageNode>) -> Result<(u32, u32, u32), ()> {
    nav_fold(nodes, nav_lis_of(nodes), (0u32, 0u32, 0u32))
}

/// Every field a profile record needs is present.
pub open spec fn profile_fields_ok(nodes: Seq<PageNode>) -> bool {
    &&& profile_username_of(nodes) is Ok
    &&& profile_skill_of(nodes) is Ok
    &&& profile_user_id_of(nodes) is Ok
    &&& profile_rating_of(nodes) is Ok
    &&& profile_userpic_of(nodes) is Ok
    &&& profile_description_of(nodes) is Ok
    &&& profile_lists_of(nodes) is Ok
    &&& profile_counts_of(nodes) is Ok
}

fn missing(what: &str) -> (r: TabunError)
    ensures
        r is ParseError,
{
    TabunError::ParseError(String::from_str("profile"), what.to_owned())
}

/// Collects the texts of the links below `root`.
fn link_texts(page: &Page, root: usize) -> (r: Vec<String>)
    ensures
        strs_view(r@) == a_texts_of(page.nodes@, root as int),
{
    let ghost nodes = page.nodes@;
    let links = find_all_within(page, Some(root), &Pred::by_tag("a"));
    proof {
        lemma_the_hits_is(nodes, Some(seq![root]), pv_tag("a"@), links@);
        assert(seq![(root as int) as usize] =~= seq![root]);
    }
    let mut out: Vec<String> = Vec::new();
    let m = links.len();
    let mut i: usize = 0;
    while i < m
        invariant
            nodes == page.nodes@,
            m == links@.len(),
            0 <= i <= m,
            forall|t: int| 0 <= t < m ==> #[trigger] links@[t] < nodes.len(),
            out@.len() == i,
            forall|t: int| 0 <= t < i ==> (#[trigger] out@[t])@ == nodes[links@[t] as int].text@,
        decreases m - i,
    {
        out.push(page.text_of(links[i]));
        i = i + 1;
    }
    proof {
        assert(strs_view(out@) =~~= a_texts_of(nodes, root as int));
    }
    out
}

/// Extracts a user's profile.
pub fn doc_get_profile(page: &Page) -> (r: TabunResult<UserInfo>)
    ensures
        match r {
            Ok(u) => {
                &&& profile_username_of(page.nodes@) == Ok::<Seq<char>, ()>(u.username@)
                &&& u.realname@ == profile_realname_of(page.nodes@)
                &&& profile_skill_of(page.nodes@) == Ok::<Seq<char>, ()>(u.skill@)
                &&& profile_user_id_of(page.nodes@) == Ok::<u32, ()>(u.id)
                &&& profile_rating_of(page.nodes@) == Ok::<Seq<char>, ()>(u.rating@)
                &&& profile_userpic_of(page.nodes@) == Ok::<Seq<char>, ()>(u.userpic@)
                &&& profile_description_of(page.nodes@) == Ok::<Seq<char>, ()>(u.description@)
                &&& (profile_lists_of(page.nodes@) matches Ok(m) && strs_view(u.blogs.created@)
                    == m.created && strs_view(u.blogs.admin@) == m.admin && strs_view(
                    u.blogs.moderator@,
                ) == m.moderator && strs_view(u.blogs.member@) == m.member && pairs_view(
                    u.other_info@,
                ) == m.other)
                &&& (profile_counts_of(page.nodes@) matches Ok(c) && u.publications == c.0
                    && u.favourites == c.1 && u.friends == c.2)
            },
            Err(e) => e is ParseError && !profile_fields_ok(page.nodes@),
        },
{
    let ghost nodes = page.nodes@;

    let username: String = match find_first_scoped(
        page,
        &Pred::tag_class("div", "profile"),
        &Pred::tag_attr("h2", "itemprop", "nickname"),
    ) {
        Some(t) => {
            proof {
                lemma_scoped_first_sound(
                    nodes,
                    None,
                    profile_block(),
                    pv_tag_attr("h2"@, "itemprop"@, "nickname"@),
                    t as int,
                );
            }
            page.text_of(t)
        },
        None => {
            return Err(missing("profile lacks a username"));
        },
    };

    let realname: String = match find_first_scoped(
        page,
        &Pred::tag_class("div", "profile"),
        &Pred::tag_attr("p", "itemprop", "name"),
    ) {
        Some(t) => {
            proof {
                lemma_scoped_first_sound(
                    nodes,
                    None,
                    profile_block(),
                    pv_tag_attr("p"@, "itemprop"@, "name"@),
                    t as int,
                );
            }
            page.text_of(t)
        },
        None => String::new(),
    };

    let skill_area = match find_first_triple(
        page,
        &Pred::tag_class("div", "profile"),
        &Pred::tag_class("div", "strength"),
        &Pred::by_tag("div"),
    ) {
        Some(el) => {
            proof {
                lemma_triple_first_sound(
                    nodes,
                    profile_block(),
                    pv_tag_class("div"@, "strength"@),
                    pv_tag("div"@),
                    el as int,
                );
            }
            el
        },
        None => {
            return Err(missing("profile lacks a strength block"));
        },
    };
    let skill = page.text_of(skill_area);
    let user_id: u32 = match page.attr(skill_area, "id") {
        Some(a) => match seg_u32(a.as_str(), 2) {
            Some(v) => v,
            None => {
                return Err(missing("strength element id is malformed"));
            },
        },
        None => {
            return Err(missing("strength element lacks an id"));
        },
    };

    let rating: String = match find_first_triple(
        page,
        &Pred::tag_class("div", "profile"),
        &Pred::by_class("vote-count"),
        &Pred::by_tag("span"),
    ) {
        Some(el) => {
            proof {
                lemma_triple_first_sound(
                    nodes,
                    profile_block(),
                    pv_class("vote-count"@),
                    pv_tag("span"@),
                    el as int,
                );
            }
            page.text_of(el)
        },
        None => {
            return Err(missing("profile lacks a rating"));
        },
    };

    let about = match ff_within(page, None, &Pred::tag_class("div", "profile-info-about")) {
        Some(ab) => {
            proof {
                lemma_first_hit_sound(
                    nodes,
                    None,
                    pv_tag_class("div"@, "profile-info-about"@),
                    ab as int,
                );
            }
            ab
        },
        None => {
            return Err(missing("profile lacks an about block"));
        },
    };
    let userpic: String = match find_first_scoped_under(
        page,
        about,
        &Pred::by_class("avatar"),
        &Pred::by_tag("img"),
    ) {
        Some(img) => {
            proof {
                lemma_scoped_first_sound(
                    nodes,
                    Some(seq![about]),
                    pv_class("avatar"@),
                    pv_tag("img"@),
                    img as int,
                );
            }
            match page.attr(img, "src") {
                Some(src) => src,
                None => {
                    return Err(missing("avatar lacks an address"));
                },
            }
        },
        None => {
            return Err(missing("profile lacks an avatar"));
        },
    };
    let description: String = match find_first_in(page, about, &Pred::tag_class("div", "text")) {
        Some(d) => {
            proof {
                lemma_first_hit_sound(
                    nodes,
                    Some(seq![about]),
                    pv_tag_class("div"@, "text"@),
                    d as int,
                );
            }
            page.inner_html_of(d)
        },
        None => {
            return Err(missing("profile lacks a description"));
        },
    };

    // The dotted list: blog memberships and free-form facts.
    let uls = find_all(page, None, &Pred::tag_class("ul", "profile-dotted-list"));
    proof {
        lemma_the_hits_is(nodes, None, pv_tag_class("ul"@, "profile-dotted-list"@), uls@);
    }
    if uls.len() == 0 {
        return Err(missing("profile lacks its dotted list"));
    }
    let last_ul = uls[uls.len() - 1];
    let lis = find_all_within(page, Some(last_ul), &Pred::by_tag("li"));
    proof {
        lemma_the_hits_is(nodes, Some(seq![last_ul]), pv_tag("li"@), lis@);
        assert(uls@.last() == last_ul);
        assert(lis@ == dotted_lis_of(nodes));
    }
    let mut created: Vec<String> = Vec::new();
    let mut admin: Vec<String> = Vec::new();
    let mut moderator: Vec<String> = Vec::new();
    let mut member: Vec<String> = Vec::new();
    let mut other_info: Vec<(String, String)> = Vec::new();
    let ln = lis.len();
    let mut i: usize = 0;
    proof {
        assert(lis@.subrange(0, 0) =~= Seq::<usize>::empty());
        assert(strs_view(created@) =~~= Seq::<Seq<char>>::empty());
        assert(strs_view(admin@) =~~= Seq::<Seq<char>>::empty());
        assert(strs_view(moderator@) =~~= Seq::<Seq<char>>::empty());
        assert(strs_view(member@) =~~= Seq::<Seq<char>>::empty());
        assert(pairs_view(other_info@) =~~= Seq::<(Seq<char>, Seq<char>)>::empty());
    }
    while i < ln
        invariant
            nodes == page.nodes@,
            ln == lis@.len(),
            0 <= i <= ln,
            lis@ == dotted_lis_of(nodes),
            the_hits(nodes, None, pv_tag_class("ul"@, "profile-dotted-list"@)).len() > 0,
            forall|t: int| 0 <= t < ln ==> #[trigger] lis@[t] < nodes.len(),
            lists_fold(nodes, lis@.subrange(0, i as int), empty_lists()) matches Ok(m) && m
                == (ProfileListsModel {
                created: strs_view(created@),
                admin: strs_view(admin@),
                moderator: strs_view(moderator@),
                member: strs_view(member@),
                other: pairs_view(other_info@),
            }),
        decreases ln - i,
    {
        let li = lis[i];
        let ghost pre = ProfileListsModel {
            created: strs_view(created@),
            admin: strs_view(admin@),
            moderator: strs_view(moderator@),
            member: strs_view(member@),
            other: pairs_view(other_info@),
        };
        let name: String = match find_first_in(page, li, &Pred::by_tag("span")) {
            Some(sp) => {
                proof {
                    lemma_first_hit_sound(nodes, Some(seq![li]), pv_tag("span"@), sp as int);
                }
                page.text_of(sp)
            },
            None => {
                proof {
                    assert(li_step(nodes, pre, li as int) is Err);
                    assert(lis@.subrange(0, i + 1).drop_last() =~= lis@.subrange(0, i as int));
                    assert(lists_fold(nodes, lis@.subrange(0, i + 1), empty_lists()) is Err);
                    lemma_lists_fold_err(nodes, lis@, i + 1, empty_lists());
                }
                return Err(missing("dotted entry lacks a label"));
            },
        };
        let st = match find_first_in(page, li, &Pred::by_tag("strong")) {
            Some(st) => {
                proof {
                    lemma_first_hit_sound(nodes, Some(seq![li]), pv_tag("strong"@), st as int);
                }
                st
            },
            None => {
                proof {
                    assert(li_step(nodes, pre, li as int) is Err);
                    assert(lis@.subrange(0, i + 1).drop_last() =~= lis@.subrange(0, i as int));
                    assert(lists_fold(nodes, lis@.subrange(0, i + 1), empty_lists()) is Err);
                    lemma_lists_fold_err(nodes, lis@, i + 1, empty_lists());
                }
                return Err(missing("dotted entry lacks a value"));
            },
        };
        if str_contains(name.as_str(), "Создал") {
            created = link_texts(page, st);
        } else if str_contains(name.as_str(), "Администрирует") {
            admin = link_texts(page, st);
        } else if str_contains(name.as_str(), "Модерирует") {
            moderator = link_texts(page, st);
        } else if str_contains(name.as_str(), "Состоит") {
            member = link_texts(page, st);
        } else {
            other_info.push((without_char(name.as_str(), ':'), page.text_of(st)));
        }
        proof {
            assert(lis@.subrange(0, i + 1).drop_last() =~= lis@.subrange(0, i as int));
            assert(lis@.subrange(0, i + 1).last() == lis@[i as int]);
            let post = ProfileListsModel {
                created: strs_view(created@),
                admin: strs_view(admin@),
                moderator: strs_view(moderator@),
                member: strs_view(member@),
                other: pairs_view(other_info@),
            };
            assert(li_step(nodes, pre, li as int) matches Ok(m2) && m2.created =~~= post.created
                && m2.admin =~~= post.admin && m2.moderator =~~= post.moderator && m2.member
                =~~= post.member && m2.other =~~= post.other);
            assert(lists_fold(nodes, lis@.subrange(0, i + 1), empty_lists()) matches Ok(m3) && m3
                == post);
        }
        i = i + 1;
    }
    proof {
        assert(lis@.subrange(0, ln as int) =~= lis@);
    }

    // The navigation counters.
    let navs = find_all(page, None, &Pred::by_class("nav-profile"));
    let nav_lis = find_all(page, Some(&navs), &Pred::by_tag("li"));
    proof {
        lemma_the_hits_is(nodes, None, pv_class("nav-profile"@), navs@);
        lemma_the_hits_is(nodes, Some(navs@), pv_tag("li"@), nav_lis@);
        assert(nav_lis@ == nav_lis_of(nodes));
        assert(nav_lis@.subrange(0, 0) =~= Seq::<usize>::empty());
    }
    let mut publications: u32 = 0;
    let mut favourites: u32 = 0;
    let mut friends: u32 = 0;
    let nn = nav_lis.len();
    let mut k: usize = 0;
    while k < nn
        invariant
            nodes == page.nodes@,
            nn == nav_lis@.len(),
            0 <= k <= nn,
            nav_lis@ == nav_lis_of(nodes),
            forall|t: int| 0 <= t < nn ==> #[trigger] nav_lis@[t] < nodes.len(),
            nav_fold(nodes, nav_lis@.subrange(0, k as int), (0u32, 0u32, 0u32)) == Ok::<
                (u32, u32, u32),
                (),
            >((publications, favourites, friends)),
        decreases nn - k,
    {
        let li = nav_lis[k];
        let ghost pre = (publications, favourites, friends);
        let caption: String = match find_first_in(page, li, &Pred::by_tag("a")) {
            Some(a) => {
                proof {
                    lemma_first_hit_sound(nodes, Some(seq![li]), pv_tag("a"@), a as int);
                }
                page.text_of(a)
            },
            None => {
                proof {
                    assert(nav_step(nodes, pre, li as int) is Err);
                    assert(nav_lis@.subrange(0, k + 1).drop_last() =~= nav_lis@.subrange(
                        0,
                        k as int,
                    ));
                    assert(nav_fold(nodes, nav_lis@.subrange(0, k + 1), (0u32, 0u32, 0u32))
                        is Err);
                    lemma_nav_fold_err(nodes, nav_lis@, k + 1, (0u32, 0u32, 0u32));
                }
                return Err(missing("navigation tab lacks a caption"));
            },
        };
        if !str_contains(caption.as_str(), "Инфо") {
            match nth_segment(caption.as_str(), '(', 1) {
                None => {},
                Some(seg) => {
                    let cleaned = without_char(seg, ')');
                    match parse_u32(cleaned.as_str()) {
                        Some(v) => {
                            let head = match nth_segment(caption.as_str(), '(', 0) {
                                Some(h) => h.to_owned(),
                                None => String::new(),
                            };
                            if str_contains(head.as_str(), "Публикации") {
                                publications = v;
                            } else if str_contains(head.as_str(), "Избранное") {
                                favourites = v;
                            } else {
                                friends = v;
                            }
                        },
                        None => {
                            proof {
                                assert(nav_step(nodes, pre, li as int) is Err);
                                assert(nav_lis@.subrange(0, k + 1).drop_last() =~= nav_lis@
                                    .subrange(0, k as int));
                                assert(nav_fold(
                                    nodes,
                                    nav_lis@.subrange(0, k + 1),
                                    (0u32, 0u32, 0u32),
                                ) is Err);
                                lemma_nav_fold_err(nodes, nav_lis@, k + 1, (0u32, 0u32, 0u32));
                            }
                            return Err(missing("navigation counter is malformed"));
                        },
                    }
                },
            }
        }
        proof {
            assert(nav_lis@.subrange(0, k + 1).drop_last() =~= nav_lis@.subrange(0, k as int));
            assert(nav_lis@.subrange(0, k + 1).last() == nav_lis@[k as int]);
            assert(nav_step(nodes, pre, li as int) == Ok::<(u32, u32, u32), ()>(
                (publications, favourites, friends),
            ));
        }
        k = k + 1;
    }
    proof {
        assert(nav_lis@.subrange(0, nn as int) =~= nav_lis@);
    }

    let u = UserInfo {
        username: username,
        realname: realname,
        skill: skill,
        id: user_id,
        rating: rating,
        userpic: userpic,
        description: description,
        other_info: other_info,
        blogs: InBlogs { created: created, admin: admin, moderator: moderator, member: member },
        publications: publications,
        favourites: favourites,
        friends: friends,
    };
    Ok(u)
}

} // verus!
