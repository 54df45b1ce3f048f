//! The document model the extractors read.
//!
//! A fetched page is held as a flat arena of nodes in document order,
//! each with its tag, attributes, combined text, serialized inner
//! markup, and parent index.  Selector-style lookup is two primitives:
//! find every node matching a predicate (optionally inside given
//! subtrees), and take the first such node.  Both are specified exactly,
//! so every extractor's contract reduces to this model.

use vstd::prelude::*;

verus! {

use vstd::string::StrSliceExecFns;

use crate::text::{is_space_char, occurs_at};

/// One node of a parsed page.
#[derive(Debug, Clone)]
pub struct PageNode {
    /// The element name, or `None` for text and comment nodes.
    pub tag: Option<String>,
    /// Attributes in document order.
    pub attrs: Vec<(String, String)>,
    /// The combined text of the node and its descendants.
    pub text: String,
    /// The node's children serialized back to markup.
    pub inner_html: String,
    /// The index of the parent node, always smaller than the node's own.
    pub parent: Option<usize>,
}

/// A parsed page: nodes in document order.
#[derive(Debug, Clone)]
pub struct Page {
    pub nodes: Vec<PageNode>,
}

/// A conjunctive node predicate: tag name, class-list membership, and an
/// exact attribute value, each optional.
#[derive(Debug, Clone)]
pub struct Pred {
    pub tag: Option<String>,
    pub class: Option<String>,
    pub attr: Option<(String, String)>,
}

/// The mathematical content of a [`Pred`], over character sequences, so
/// that contracts can spell out the predicates they search with.
pub struct PredView {
    pub tag: Option<Seq<char>>,
    pub class: Option<Seq<char>>,
    pub attr: Option<(Seq<char>, Seq<char>)>,
}

impl View for Pred {
    type V = PredView;

    open spec fn view(&self) -> PredView {
        PredView {
            tag: match self.tag {
                Some(t) => Some(t@),
                None => None,
            },
            class: match self.class {
                Some(c) => Some(c@),
                None => None,
            },
            attr: match self.attr {
                Some(kv) => Some((kv.0@, kv.1@)),
                None => None,
            },
        }
    }
}

/// The predicate on elements with tag `t`.
pub open spec fn pv_tag(t: Seq<char>) -> PredView {
    PredView { tag: Some(t), class: None, attr: None }
}

/// The predicate on nodes whose class list contains `c`.
pub open spec fn pv_class(c: Seq<char>) -> PredView {
    PredView { tag: None, class: Some(c), attr: None }
}

/// The predicate on nodes whose attribute `k` equals `v`.
pub open spec fn pv_attr(k: Seq<char>, v: Seq<char>) -> PredView {
    PredView { tag: None, class: None, attr: Some((k, v)) }
}

/// The predicate on elements with tag `t` and class `c`.
pub open spec fn pv_tag_class(t: Seq<char>, c: Seq<char>) -> PredView {
    PredView { tag: Some(t), class: Some(c), attr: None }
}

/// The predicate on elements with tag `t` whose attribute `k` equals `v`.
pub open spec fn pv_tag_attr(t: Seq<char>, k: Seq<char>, v: Seq<char>) -> PredView {
    PredView { tag: Some(t), class: None, attr: Some((k, v)) }
}

impl Pred {
    /// Matches elements with tag `t`.
    pub fn by_tag(t: &str) -> (r: Pred)
        ensures
            r@ == pv_tag(t@),
    {
        Pred { tag: Some(t.to_owned()), class: None, attr: None }
    }

    /// Matches nodes whose class list contains `c`.
    pub fn by_class(c: &str) -> (r: Pred)
        ensures
            r@ == pv_class(c@),
    {
        Pred { tag: None, class: Some(c.to_owned()), attr: None }
    }

    /// Matches nodes whose attribute `k` equals `v`.
    pub fn by_attr(k: &str, v: &str) -> (r: Pred)
        ensures
            r@ == pv_attr(k@, v@),
    {
        Pred { tag: None, class: None, attr: Some((k.to_owned(), v.to_owned())) }
    }

    /// Matches elements with tag `t` whose class list contains `c`.
    pub fn tag_class(t: &str, c: &str) -> (r: Pred)
        ensures
            r@ == pv_tag_class(t@, c@),
    {
        Pred { tag: Some(t.to_owned()), class: Some(c.to_owned()), attr: None }
    }

    /// Matches elements with tag `t` whose attribute `k` equals `v`.
    pub fn tag_attr(t: &str, k: &str, v: &str) -> (r: Pred)
        ensures
            r@ == pv_tag_attr(t@, k@, v@),
    {
        Pred { tag: Some(t.to_owned()), class: None, attr: Some((k.to_owned(), v.to_owned())) }
    }
}

/// The value of the first attribute named `name`.
pub open spec fn attr_from(attrs: Seq<(String, String)>, name: Seq<char>) -> Option<Seq<char>>
    decreases attrs.len(),
{
    if attrs.len() == 0 {
        None
    } else if attrs[0].0@ == name {
        Some(attrs[0].1@)
    } else {
        attr_from(attrs.drop_first(), name)
    }
}

/// The value of attribute `name` on node `n`.
pub open spec fn attr_of(n: PageNode, name: Seq<char>) -> Option<Seq<char>> {
    attr_from(n.attrs@, name)
}

/// `w` stands at position `i` of `v` as a whole whitespace-separated
/// word.
pub open spec fn word_at(v: Seq<char>, w: Seq<char>, i: int) -> bool {
    occurs_at(v, w, i) && (i == 0 || is_space_char(v[i - 1])) && (i + w.len() == v.len()
        || is_space_char(v[i + w.len()]))
}

/// The class-list text `v` contains the non-empty word `w`.
pub open spec fn class_list_has(v: Seq<char>, w: Seq<char>) -> bool {
    w.len() > 0 && exists|i: int| word_at(v, w, i)
}

/// Node `n` satisfies predicate `p`.
pub open spec fn node_matches(n: PageNode, p: PredView) -> bool {
    &&& match p.tag {
        Some(t) => n.tag matches Some(nt) && nt@ == t,
        None => true,
    }
    &&& match p.class {
        Some(c) => attr_of(n, "class"@) matches Some(v) && class_list_has(v, c),
        None => true,
    }
    &&& match p.attr {
        Some(kv) => attr_of(n, kv.0) == Some(kv.1),
        None => true,
    }
}

/// Walking up at most `fuel` parent links from `i` reaches `root`.
pub open spec fn in_subtree(nodes: Seq<PageNode>, root: int, i: int, fuel: int) -> bool
    decreases fuel,
{
    if i == root {
        true
    } else if fuel <= 0 {
        false
    } else if 0 <= i < nodes.len() {
        match nodes[i].parent {
            Some(p) => in_subtree(nodes, root, p as int, fuel - 1),
            None => false,
        }
    } else {
        false
    }
}

/// `i` is a strict descendant of `root`.
pub open spec fn strict_desc(nodes: Seq<PageNode>, root: int, i: int) -> bool {
    i != root && in_subtree(nodes, root, i, nodes.len() as int)
}

/// `i` is a strict descendant of some node listed in `rs`.
pub open spec fn desc_of_any(nodes: Seq<PageNode>, rs: Seq<usize>, i: int) -> bool {
    exists|k: int| 0 <= k < rs.len() && strict_desc(nodes, rs[k] as int, i)
}

/// `i` lies inside the search scope: anywhere, or below one of the
/// given roots.
pub open spec fn in_scope(nodes: Seq<PageNode>, roots: Option<Seq<usize>>, i: int) -> bool {
    match roots {
        None => true,
        Some(rs) => desc_of_any(nodes, rs, i),
    }
}

/// `i` is a hit: in range, matching, and in scope.
pub open spec fn hit(nodes: Seq<PageNode>, roots: Option<Seq<usize>>, p: PredView, i: int) -> bool {
    0 <= i < nodes.len() && node_matches(nodes[i], p) && in_scope(nodes, roots, i)
}

/// `r` is exactly the hits of the search, ascending: sound, complete and
/// strictly sorted.
pub open spec fn found_all(
    nodes: Seq<PageNode>,
    roots: Option<Seq<usize>>,
    p: PredView,
    r: Seq<usize>,
) -> bool {
    &&& forall|j: int| 0 <= j < r.len() ==> hit(nodes, roots, p, #[trigger] r[j] as int)
    &&& forall|i: int| 0 <= i < nodes.len() && hit(nodes, roots, p, i) ==> r.contains(i as usize)
    &&& forall|j1: int, j2: int| 0 <= j1 < j2 < r.len() ==> r[j1] < r[j2]
}

/// `r` is the first hit of the search, or `None` when nothing matches.
pub open spec fn found_first(
    nodes: Seq<PageNode>,
    roots: Option<Seq<usize>>,
    p: PredView,
    r: Option<usize>,
) -> bool {
    match r {
        Some(i) => hit(nodes, roots, p, i as int) && forall|j: int|
            0 <= j < i ==> !hit(nodes, roots, p, j),
        None => forall|j: int| !hit(nodes, roots, p, j),
    }
}

proof fn lemma_sorted_same_membership(r1: Seq<usize>, r2: Seq<usize>)
    requires
        forall|j1: int, j2: int| 0 <= j1 < j2 < r1.len() ==> r1[j1] < r1[j2],
        forall|j1: int, j2: int| 0 <= j1 < j2 < r2.len() ==> r2[j1] < r2[j2],
        forall|x: usize| r1.contains(x) <==> r2.contains(x),
    ensures
        r1 == r2,
    decreases r1.len(),
{
    if r1.len() == 0 {
        if r2.len() > 0 {
            assert(r2.contains(r2[0]));
            assert(r1.contains(r2[0]));
        }
        assert(r1 =~= r2);
    } else {
        assert(r1.contains(r1[0]));
        assert(r2.contains(r1[0]));
        if r2.len() == 0 {
            assert(false);
        }
        let k1 = choose|k: int| 0 <= k < r2.len() && r2[k] == r1[0];
        assert(r2[0] <= r2[k1]);
        assert(r2.contains(r2[0]));
        assert(r1.contains(r2[0]));
        let k2 = choose|k: int| 0 <= k < r1.len() && r1[k] == r2[0];
        assert(r1[0] <= r1[k2]);
        assert(r1[0] == r2[0]);
        let t1 = r1.drop_first();
        let t2 = r2.drop_first();
        assert forall|x: usize| t1.contains(x) implies t2.contains(x) by {
            let j = choose|j: int| 0 <= j < t1.len() && t1[j] == x;
            assert(r1[j + 1] == x);
            assert(r1[0] < x);
            assert(r1.contains(x));
            assert(r2.contains(x));
            let k = choose|k: int| 0 <= k < r2.len() && r2[k] == x;
            assert(k != 0);
            assert(t2[k - 1] == x);
        }
        assert forall|x: usize| t2.contains(x) implies t1.contains(x) by {
            let j = choose|j: int| 0 <= j < t2.len() && t2[j] == x;
            assert(r2[j + 1] == x);
            assert(r2[0] < x);
            assert(r2.contains(x));
            assert(r1.contains(x));
            let k = choose|k: int| 0 <= k < r1.len() && r1[k] == x;
            assert(k != 0);
            assert(t1[k - 1] == x);
        }
        assert forall|j1: int, j2: int| 0 <= j1 < j2 < t1.len() implies t1[j1] < t1[j2] by {
            assert(r1[j1 + 1] < r1[j2 + 1]);
        }
        assert forall|j1: int, j2: int| 0 <= j1 < j2 < t2.len() implies t2[j1] < t2[j2] by {
            assert(r2[j1 + 1] < r2[j2 + 1]);
        }
        lemma_sorted_same_membership(t1, t2);
        assert(r1.len() == r2.len());
        assert forall|i: int| 0 <= i < r1.len() implies r1[i] == r2[i] by {
            if i > 0 {
                assert(t1[i - 1] == r1[i]);
                assert(t2[i - 1] == r2[i]);
            }
        }
        assert(r1 =~= r2);
    }
}

/// Two yields of the same search coincide: the search's result is a
/// function of the page, the scope and the predicate.
pub proof fn lemma_found_all_unique(
    nodes: Seq<PageNode>,
    roots: Option<Seq<usize>>,
    p: PredView,
    r1: Seq<usize>,
    r2: Seq<usize>,
)
    requires
        found_all(nodes, roots, p, r1),
        found_all(nodes, roots, p, r2),
    ensures
        r1 == r2,
{
    assert forall|x: usize| r1.contains(x) implies r2.contains(x) by {
        let j = choose|j: int| 0 <= j < r1.len() && r1[j] == x;
        assert(hit(nodes, roots, p, r1[j] as int));
    }
    assert forall|x: usize| r2.contains(x) implies r1.contains(x) by {
        let j = choose|j: int| 0 <= j < r2.len() && r2[j] == x;
        assert(hit(nodes, roots, p, r2[j] as int));
    }
    lemma_sorted_same_membership(r1, r2);
}

/// The hits of a search, as a value: the unique ascending yield.
pub open spec fn the_hits(nodes: Seq<PageNode>, roots: Option<Seq<usize>>, p: PredView) -> Seq<
    usize,
> {
    choose|rs: Seq<usize>| found_all(nodes, roots, p, rs)
}

/// A witnessed yield pins `the_hits` down.
pub proof fn lemma_the_hits_is(
    nodes: Seq<PageNode>,
    roots: Option<Seq<usize>>,
    p: PredView,
    r: Seq<usize>,
)
    requires
        found_all(nodes, roots, p, r),
    ensures
        the_hits(nodes, roots, p) == r,
{
    assert(exists|rs: Seq<usize>| found_all(nodes, roots, p, rs));
    assert(found_all(nodes, roots, p, the_hits(nodes, roots, p)));
    lemma_found_all_unique(nodes, roots, p, the_hits(nodes, roots, p), r);
}

/// The first hit of a search, as a value.
pub open spec fn first_hit_of(
    nodes: Seq<PageNode>,
    roots: Option<Seq<usize>>,
    p: PredView,
) -> Option<int> {
    if exists|i: int|
        hit(nodes, roots, p, i) && (forall|j: int| 0 <= j < i ==> !hit(nodes, roots, p, j)) {
        Some(
            choose|i: int|
                hit(nodes, roots, p, i) && (forall|j: int|
                    0 <= j < i ==> !hit(nodes, roots, p, j)),
        )
    } else {
        None
    }
}

/// What `find_first` returns is exactly `first_hit_of`.
pub proof fn lemma_found_first_is(
    nodes: Seq<PageNode>,
    roots: Option<Seq<usize>>,
    p: PredView,
    r: Option<usize>,
)
    requires
        found_first(nodes, roots, p, r),
    ensures
        first_hit_of(nodes, roots, p) == match r {
            Some(i) => Some(i as int),
            None => None::<int>,
        },
{
    match r {
        Some(i) => {
            assert(hit(nodes, roots, p, i as int) && (forall|j: int|
                0 <= j < i as int ==> !hit(nodes, roots, p, j)));
            let w = choose|w: int|
                hit(nodes, roots, p, w) && (forall|j: int|
                    0 <= j < w ==> !hit(nodes, roots, p, j));
            if w < i as int {
                assert(!hit(nodes, roots, p, w));
            } else if (i as int) < w {
                assert(!hit(nodes, roots, p, i as int));
            }
        },
        None => {
            if first_hit_of(nodes, roots, p) is Some {
                let w = choose|w: int|
                    hit(nodes, roots, p, w) && (forall|j: int|
                        0 <= j < w ==> !hit(nodes, roots, p, j));
                assert(!hit(nodes, roots, p, w));
            }
        },
    }
}

/// The first hit below the single node `root`.
pub open spec fn first_in(nodes: Seq<PageNode>, root: int, p: PredView) -> Option<int> {
    first_hit_of(nodes, Some(seq![root as usize]), p)
}

/// The first node matching `p` below `root`.
pub fn find_first_in(page: &Page, root: usize, p: &Pred) -> (r: Option<usize>)
    ensures
        first_in(page.nodes@, root as int, p@) == match r {
            Some(i) => Some(i as int),
            None => None::<int>,
        },
{
    let mut scope: Vec<usize> = Vec::new();
    scope.push(root);
    proof {
        assert(scope@ =~= seq![root]);
    }
    let f = find_first(page, Some(&scope), p);
    proof {
        lemma_found_first_is(page.nodes@, Some(seq![root]), p@, f);
    }
    f
}

/// A first hit, as a value, is itself a hit with none before it.
pub proof fn lemma_first_hit_sound(
    nodes: Seq<PageNode>,
    roots: Option<Seq<usize>>,
    p: PredView,
    i: int,
)
    requires
        first_hit_of(nodes, roots, p) == Some(i),
    ensures
        hit(nodes, roots, p, i),
        forall|j: int| 0 <= j < i ==> !hit(nodes, roots, p, j),
{
    assert(exists|w: int|
        hit(nodes, roots, p, w) && (forall|j: int| 0 <= j < w ==> !hit(nodes, roots, p, j)));
    let w = choose|w: int|
        hit(nodes, roots, p, w) && (forall|j: int| 0 <= j < w ==> !hit(nodes, roots, p, j));
    assert(w == i);
}

/// `i` matches `inner` inside some node that matches `outer` within the
/// scope `oroots`: the two-level selector chain the extractors use.
pub open spec fn scoped_hit_in(
    nodes: Seq<PageNode>,
    oroots: Option<Seq<usize>>,
    outer: PredView,
    inner: PredView,
    i: int,
) -> bool {
    0 <= i < nodes.len() && node_matches(nodes[i], inner) && exists|o: int|
        hit(nodes, oroots, outer, o) && strict_desc(nodes, o, i)
}

/// `i` matches `inner` inside some node matching `outer`, anywhere.
pub open spec fn scoped_hit(
    nodes: Seq<PageNode>,
    outer: PredView,
    inner: PredView,
    i: int,
) -> bool {
    scoped_hit_in(nodes, None, outer, inner, i)
}

/// With `rs` exactly the nodes matching `outer` in scope `oroots`,
/// searching below `rs` is searching below any such match.
pub proof fn lemma_scope_equiv_in(
    nodes: Seq<PageNode>,
    oroots: Option<Seq<usize>>,
    outer: PredView,
    inner: PredView,
    rs: Seq<usize>,
)
    requires
        found_all(nodes, oroots, outer, rs),
        nodes.len() <= usize::MAX,
    ensures
        forall|i: int| hit(nodes, Some(rs), inner, i) <==> scoped_hit_in(
            nodes,
            oroots,
            outer,
            inner,
            i,
        ),
{
    assert forall|i: int| hit(nodes, Some(rs), inner, i) implies scoped_hit_in(
        nodes,
        oroots,
        outer,
        inner,
        i,
    ) by {
        let k = choose|k: int| 0 <= k < rs.len() && strict_desc(nodes, rs[k] as int, i);
        assert(hit(nodes, oroots, outer, rs[k] as int));
    }
    assert forall|i: int| scoped_hit_in(nodes, oroots, outer, inner, i) implies hit(
        nodes,
        Some(rs),
        inner,
        i,
    ) by {
        let o = choose|o: int| hit(nodes, oroots, outer, o) && strict_desc(nodes, o, i);
        assert(rs.contains(o as usize));
        let k = choose|k: int| 0 <= k < rs.len() && rs[k] == o as usize;
        assert(strict_desc(nodes, rs[k] as int, i));
        assert(desc_of_any(nodes, rs, i));
    }
}

/// With `rs` exactly the nodes matching `outer`, searching below `rs`
/// is searching below any `outer` match.
pub proof fn lemma_scope_equiv(
    nodes: Seq<PageNode>,
    outer: PredView,
    inner: PredView,
    rs: Seq<usize>,
)
    requires
        found_all(nodes, None, outer, rs),
        nodes.len() <= usize::MAX,
    ensures
        forall|i: int| hit(nodes, Some(rs), inner, i) <==> scoped_hit(nodes, outer, inner, i),
{
    lemma_scope_equiv_in(nodes, None, outer, inner, rs);
}

/// The first node matching `inner` below any node matching `outer`, as
/// a value.
pub open spec fn first_scoped_hit(
    nodes: Seq<PageNode>,
    outer: PredView,
    inner: PredView,
) -> Option<int> {
    first_scoped_hit_of(nodes, None, outer, inner)
}

/// The first node matching `inner` below any node matching `outer`.
pub fn find_first_scoped(page: &Page, outer: &Pred, inner: &Pred) -> (r: Option<usize>)
    ensures
        first_scoped_hit(page.nodes@, outer@, inner@) == match r {
            Some(i) => Some(i as int),
            None => None::<int>,
        },
{
    let n = page.nodes.len();
    let outers = find_all(page, None, outer);
    let f = find_first(page, Some(&outers), inner);
    proof {
        assert(page.nodes@.len() == n);
        let ghost nodes = page.nodes@;
        lemma_scope_equiv_in(nodes, None, outer@, inner@, outers@);
        match f {
            Some(i) => {
                assert(scoped_hit_in(nodes, None, outer@, inner@, i as int));
                assert forall|j: int| 0 <= j < i implies !scoped_hit_in(
                    nodes,
                    None,
                    outer@,
                    inner@,
                    j,
                ) by {
                    assert(!hit(nodes, Some(outers@), inner@, j));
                }
            },
            None => {
                assert forall|j: int| !scoped_hit_in(nodes, None, outer@, inner@, j) by {
                    assert(!hit(nodes, Some(outers@), inner@, j));
                }
            },
        }
        lemma_scoped_first_is(nodes, None, outer@, inner@, f);
    }
    f
}

/// The first node matching `inner` below any node matching `outer` in
/// scope `oroots`, as a value.
pub open spec fn first_scoped_hit_of(
    nodes: Seq<PageNode>,
    oroots: Option<Seq<usize>>,
    outer: PredView,
    inner: PredView,
) -> Option<int> {
    if exists|i: int|
        scoped_hit_in(nodes, oroots, outer, inner, i) && (forall|j: int|
            0 <= j < i ==> !scoped_hit_in(nodes, oroots, outer, inner, j)) {
        Some(
            choose|i: int|
                scoped_hit_in(nodes, oroots, outer, inner, i) && (forall|j: int|
                    0 <= j < i ==> !scoped_hit_in(nodes, oroots, outer, inner, j)),
        )
    } else {
        None
    }
}

/// `r` is the first node matching `inner` below an `outer` match in
/// scope `oroots`, or `None` when nothing is.
pub open spec fn scoped_first_matches(
    nodes: Seq<PageNode>,
    oroots: Option<Seq<usize>>,
    outer: PredView,
    inner: PredView,
    r: Option<usize>,
) -> bool {
    match r {
        Some(i) => scoped_hit_in(nodes, oroots, outer, inner, i as int) && forall|j: int|
            0 <= j < i ==> !scoped_hit_in(nodes, oroots, outer, inner, j),
        None => forall|j: int| !scoped_hit_in(nodes, oroots, outer, inner, j),
    }
}

/// A witnessed first scoped hit pins `first_scoped_hit_of` down.
pub proof fn lemma_scoped_first_is(
    nodes: Seq<PageNode>,
    oroots: Option<Seq<usize>>,
    outer: PredView,
    inner: PredView,
    r: Option<usize>,
)
    requires
        scoped_first_matches(nodes, oroots, outer, inner, r),
    ensures
        first_scoped_hit_of(nodes, oroots, outer, inner) == match r {
            Some(i) => Some(i as int),
            None => None::<int>,
        },
{
    match r {
        Some(i) => {
            assert(scoped_hit_in(nodes, oroots, outer, inner, i as int) && (forall|j: int|
                0 <= j < i as int ==> !scoped_hit_in(nodes, oroots, outer, inner, j)));
            let w = choose|w: int|
                scoped_hit_in(nodes, oroots, outer, inner, w) && (forall|j: int|
                    0 <= j < w ==> !scoped_hit_in(nodes, oroots, outer, inner, j));
            if w < i as int {
                assert(!scoped_hit_in(nodes, oroots, outer, inner, w));
            } else if (i as int) < w {
                assert(!scoped_hit_in(nodes, oroots, outer, inner, i as int));
            }
        },
        None => {
            if first_scoped_hit_of(nodes, oroots, outer, inner) is Some {
                let w = choose|w: int|
                    scoped_hit_in(nodes, oroots, outer, inner, w) && (forall|j: int|
                        0 <= j < w ==> !scoped_hit_in(nodes, oroots, outer, inner, j));
                assert(!scoped_hit_in(nodes, oroots, outer, inner, w));
            }
        },
    }
}

/// `r` is exactly the nodes matching `inner` below an `outer` match in
/// scope `oroots`, ascending.
pub open spec fn found_all_scoped(
    nodes: Seq<PageNode>,
    oroots: Option<Seq<usize>>,
    outer: PredView,
    inner: PredView,
    r: Seq<usize>,
) -> bool {
    &&& forall|j: int|
        0 <= j < r.len() ==> scoped_hit_in(nodes, oroots, outer, inner, #[trigger] r[j] as int)
    &&& forall|i: int|
        0 <= i < nodes.len() && scoped_hit_in(nodes, oroots, outer, inner, i) ==> r.contains(
            i as usize,
        )
    &&& forall|j1: int, j2: int| 0 <= j1 < j2 < r.len() ==> r[j1] < r[j2]
}

/// All nodes matching `inner` below any node matching `outer` within
/// `root`.
pub fn find_all_scoped_under(page: &Page, root: usize, outer: &Pred, inner: &Pred) -> (r: Vec<
    usize,
>)
    ensures
        found_all_scoped(page.nodes@, Some(seq![root]), outer@, inner@, r@),
{
    let n = page.nodes.len();
    let outers = find_all_within(page, Some(root), outer);
    let r = find_all(page, Some(&outers), inner);
    proof {
        assert(page.nodes@.len() == n);
        lemma_scope_equiv_in(page.nodes@, Some(seq![root]), outer@, inner@, outers@);
    }
    r
}

/// A first scoped hit, as a value, is itself a scoped hit with none
/// before it.
pub proof fn lemma_scoped_first_sound(
    nodes: Seq<PageNode>,
    oroots: Option<Seq<usize>>,
    outer: PredView,
    inner: PredView,
    i: int,
)
    requires
        first_scoped_hit_of(nodes, oroots, outer, inner) == Some(i),
    ensures
        scoped_hit_in(nodes, oroots, outer, inner, i),
        forall|j: int| 0 <= j < i ==> !scoped_hit_in(nodes, oroots, outer, inner, j),
{
    assert(exists|w: int|
        scoped_hit_in(nodes, oroots, outer, inner, w) && (forall|j: int|
            0 <= j < w ==> !scoped_hit_in(nodes, oroots, outer, inner, j)));
    let w = choose|w: int|
        scoped_hit_in(nodes, oroots, outer, inner, w) && (forall|j: int|
            0 <= j < w ==> !scoped_hit_in(nodes, oroots, outer, inner, j));
    assert(w == i);
}

/// The first node matching `inner` below any node matching `outer`
/// within the single node `root`, as a value.
pub open spec fn first_scoped_under(
    nodes: Seq<PageNode>,
    root: int,
    outer: PredView,
    inner: PredView,
) -> Option<int> {
    first_scoped_hit_of(nodes, Some(seq![root as usize]), outer, inner)
}

/// The first node matching `inner` below any node matching `outer`
/// within `root`.
pub fn find_first_scoped_under(page: &Page, root: usize, outer: &Pred, inner: &Pred) -> (r:
    Option<usize>)
    ensures
        first_scoped_under(page.nodes@, root as int, outer@, inner@) == match r {
            Some(i) => Some(i as int),
            None => None::<int>,
        },
{
    let n = page.nodes.len();
    let mut scope: Vec<usize> = Vec::new();
    scope.push(root);
    proof {
        assert(scope@ =~= seq![root]);
    }
    let outers = find_all(page, Some(&scope), outer);
    let f = find_first(page, Some(&outers), inner);
    proof {
        assert(page.nodes@.len() == n);
        lemma_scope_equiv_in(page.nodes@, Some(seq![root]), outer@, inner@, outers@);
        lemma_scoped_first_is(page.nodes@, Some(seq![root]), outer@, inner@, f);
        assert(seq![(root as int) as usize] =~= seq![root]);
    }
    f
}

/// All nodes matching `p` below the single node `scope`, or anywhere.
pub fn find_all_within(page: &Page, scope: Option<usize>, p: &Pred) -> (r: Vec<usize>)
    ensures
        found_all(
            page.nodes@,
            match scope {
                Some(a) => Some(seq![a]),
                None => None,
            },
            p@,
            r@,
        ),
{
    match scope {
        Some(a) => {
            let mut v: Vec<usize> = Vec::new();
            v.push(a);
            proof {
                assert(v@ =~= seq![a]);
            }
            find_all(page, Some(&v), p)
        },
        None => find_all(page, None, p),
    }
}

/// `i` matches `p3` inside a `p2` match that itself lies inside a `p1`
/// match: the three-level selector chain of the profile page.
pub open spec fn triple_hit(
    nodes: Seq<PageNode>,
    p1: PredView,
    p2: PredView,
    p3: PredView,
    i: int,
) -> bool {
    0 <= i < nodes.len() && node_matches(nodes[i], p3) && exists|o: int|
        scoped_hit(nodes, p1, p2, o) && strict_desc(nodes, o, i)
}

/// The first triple hit, as a value.
pub open spec fn first_triple_of(
    nodes: Seq<PageNode>,
    p1: PredView,
    p2: PredView,
    p3: PredView,
) -> Option<int> {
    if exists|i: int|
        triple_hit(nodes, p1, p2, p3, i) && (forall|j: int|
            0 <= j < i ==> !triple_hit(nodes, p1, p2, p3, j)) {
        Some(
            choose|i: int|
                triple_hit(nodes, p1, p2, p3, i) && (forall|j: int|
                    0 <= j < i ==> !triple_hit(nodes, p1, p2, p3, j)),
        )
    } else {
        None
    }
}

/// A first triple hit, as a value, is itself one with none before it.
pub proof fn lemma_triple_first_sound(
    nodes: Seq<PageNode>,
    p1: PredView,
    p2: PredView,
    p3: PredView,
    i: int,
)
    requires
        first_triple_of(nodes, p1, p2, p3) == Some(i),
    ensures
        triple_hit(nodes, p1, p2, p3, i),
        forall|j: int| 0 <= j < i ==> !triple_hit(nodes, p1, p2, p3, j),
{
    assert(exists|w: int|
        triple_hit(nodes, p1, p2, p3, w) && (forall|j: int|
            0 <= j < w ==> !triple_hit(nodes, p1, p2, p3, j)));
    let w = choose|w: int|
        triple_hit(nodes, p1, p2, p3, w) && (forall|j: int|
            0 <= j < w ==> !triple_hit(nodes, p1, p2, p3, j));
    assert(w == i);
}

/// With `rs1` the `p1` matches and `rs2` the `p2` matches below them,
/// searching below `rs2` is searching the three-level chain.
pub proof fn lemma_triple_equiv(
    nodes: Seq<PageNode>,
    p1: PredView,
    p2: PredView,
    p3: PredView,
    rs1: Seq<usize>,
    rs2: Seq<usize>,
)
    requires
        found_all(nodes, None, p1, rs1),
        found_all(nodes, Some(rs1), p2, rs2),
        nodes.len() <= usize::MAX,
    ensures
        forall|i: int| hit(nodes, Some(rs2), p3, i) <==> triple_hit(nodes, p1, p2, p3, i),
{
    lemma_scope_equiv_in(nodes, None, p1, p2, rs1);
    lemma_scope_equiv_in(nodes, Some(rs1), p2, p3, rs2);
    assert forall|i: int| hit(nodes, Some(rs2), p3, i) implies triple_hit(
        nodes,
        p1,
        p2,
        p3,
        i,
    ) by {
        assert(scoped_hit_in(nodes, Some(rs1), p2, p3, i));
        let o = choose|o: int| hit(nodes, Some(rs1), p2, o) && strict_desc(nodes, o, i);
        assert(scoped_hit(nodes, p1, p2, o) && strict_desc(nodes, o, i));
    }
    assert forall|i: int| triple_hit(nodes, p1, p2, p3, i) implies hit(
        nodes,
        Some(rs2),
        p3,
        i,
    ) by {
        let o = choose|o: int| scoped_hit(nodes, p1, p2, o) && strict_desc(nodes, o, i);
        assert(hit(nodes, Some(rs1), p2, o));
        assert(scoped_hit_in(nodes, Some(rs1), p2, p3, i));
    }
}

/// A witnessed first triple hit pins `first_triple_of` down.
pub proof fn lemma_triple_first_is(
    nodes: Seq<PageNode>,
    p1: PredView,
    p2: PredView,
    p3: PredView,
    r: Option<usize>,
)
    requires
        match r {
            Some(i) => triple_hit(nodes, p1, p2, p3, i as int) && forall|j: int|
                0 <= j < i ==> !triple_hit(nodes, p1, p2, p3, j),
            None => forall|j: int| !triple_hit(nodes, p1, p2, p3, j),
        },
    ensures
        first_triple_of(nodes, p1, p2, p3) == match r {
            Some(i) => Some(i as int),
            None => None::<int>,
        },
{
    match r {
        Some(i) => {
            assert(triple_hit(nodes, p1, p2, p3, i as int) && (forall|j: int|
                0 <= j < i as int ==> !triple_hit(nodes, p1, p2, p3, j)));
            let w = choose|w: int|
                triple_hit(nodes, p1, p2, p3, w) && (forall|j: int|
                    0 <= j < w ==> !triple_hit(nodes, p1, p2, p3, j));
            if w < i as int {
                assert(!triple_hit(nodes, p1, p2, p3, w));
            } else if (i as int) < w {
                assert(!triple_hit(nodes, p1, p2, p3, i as int));
            }
        },
        None => {
            if first_triple_of(nodes, p1, p2, p3) is Some {
                let w = choose|w: int|
                    triple_hit(nodes, p1, p2, p3, w) && (forall|j: int|
                        0 <= j < w ==> !triple_hit(nodes, p1, p2, p3, j));
                assert(!triple_hit(nodes, p1, p2, p3, w));
            }
        },
    }
}

/// The first node matching `p3` below a `p2` match below a `p1` match.
#[verifier::rlimit(50)]
pub fn find_first_triple(page: &Page, p1: &Pred, p2: &Pred, p3: &Pred) -> (r: Option<usize>)
    ensures
        first_triple_of(page.nodes@, p1@, p2@, p3@) == match r {
            Some(i) => Some(i as int),
            None => None::<int>,
        },
{
    let ghost nodes = page.nodes@;
    let n = page.nodes.len();
    let rs1 = find_all(page, None, p1);
    let rs2 = find_all(page, Some(&rs1), p2);
    let f = find_first(page, Some(&rs2), p3);
    proof {
        assert(nodes.len() == n);
        lemma_triple_equiv(nodes, p1@, p2@, p3@, rs1@, rs2@);
        match f {
            Some(i) => {
                assert(triple_hit(nodes, p1@, p2@, p3@, i as int));
                assert forall|j: int| 0 <= j < i implies !triple_hit(nodes, p1@, p2@, p3@, j) by {
                    assert(!hit(nodes, Some(rs2@), p3@, j));
                }
            },
            None => {
                assert forall|j: int| !triple_hit(nodes, p1@, p2@, p3@, j) by {
                    assert(!hit(nodes, Some(rs2@), p3@, j));
                }
            },
        }
        lemma_triple_first_is(nodes, p1@, p2@, p3@, f);
    }
    f
}

/// The first hit below `scope`, or anywhere when no scope is given.
pub open spec fn first_within(nodes: Seq<PageNode>, scope: Option<int>, p: PredView) -> Option<
    int,
> {
    match scope {
        Some(a) => first_in(nodes, a, p),
        None => first_hit_of(nodes, None, p),
    }
}

/// The first node matching `p` below `scope`, or anywhere.
pub fn ff_within(page: &Page, scope: Option<usize>, p: &Pred) -> (r: Option<usize>)
    ensures
        first_within(
            page.nodes@,
            match scope {
                Some(a) => Some(a as int),
                None => None,
            },
            p@,
        ) == match r {
            Some(i) => Some(i as int),
            None => None::<int>,
        },
{
    match scope {
        Some(a) => find_first_in(page, a, p),
        None => {
            let f = find_first(page, None, p);
            proof {
                lemma_found_first_is(page.nodes@, None, p@, f);
            }
            f
        },
    }
}

/// The first `inner` match below an `outer` match, both inside `scope`
/// (or anywhere when no scope is given).
pub open spec fn first_scoped_within(
    nodes: Seq<PageNode>,
    scope: Option<int>,
    outer: PredView,
    inner: PredView,
) -> Option<int> {
    match scope {
        Some(a) => first_scoped_under(nodes, a, outer, inner),
        None => first_scoped_hit(nodes, outer, inner),
    }
}

/// The first node matching `inner` below an `outer` match inside
/// `scope`, or anywhere.
pub fn ff_scoped_within(page: &Page, scope: Option<usize>, outer: &Pred, inner: &Pred) -> (r:
    Option<usize>)
    ensures
        first_scoped_within(
            page.nodes@,
            match scope {
                Some(a) => Some(a as int),
                None => None,
            },
            outer@,
            inner@,
        ) == match r {
            Some(i) => Some(i as int),
            None => None::<int>,
        },
{
    match scope {
        Some(a) => find_first_scoped_under(page, a, outer, inner),
        None => find_first_scoped(page, outer, inner),
    }
}

impl Page {
    /// How many nodes the page has.
    pub fn len(&self) -> (r: usize)
        ensures
            r == self.nodes@.len(),
    {
        self.nodes.len()
    }

    /// The value of attribute `name` on node `i`.
    pub fn attr(&self, i: usize, name: &str) -> (r: Option<String>)
        requires
            i < self.nodes@.len(),
        ensures
            match r {
                Some(v) => attr_of(self.nodes@[i as int], name@) == Some(v@),
                None => attr_of(self.nodes@[i as int], name@) is None,
            },
    {
        let attrs = &self.nodes[i].attrs;
        let n = attrs.len();
        let mut k: usize = 0;
        proof {
            assert(attrs@.skip(0) =~= attrs@);
        }
        while k < n
            invariant
                n == attrs@.len(),
                0 <= k <= n,
                attrs == self.nodes@[i as int].attrs,
                attr_from(attrs@, name@) == attr_from(attrs@.skip(k as int), name@),
            decreases n - k,
        {
            let hit_here = crate::text::str_eq(attrs[k].0.as_str(), name);
            proof {
                assert(attrs@.skip(k as int)[0] == attrs@[k as int]);
            }
            if hit_here {
                proof {
                    assert(attr_from(attrs@.skip(k as int), name@) == Some(
                        attrs@[k as int].1@,
                    ));
                }
                return Some(attrs[k].1.clone());
            }
            proof {
                assert(attrs@.skip(k as int).drop_first() =~= attrs@.skip(k + 1));
            }
            k = k + 1;
        }
        proof {
            assert(attrs@.skip(n as int) =~= Seq::<(String, String)>::empty());
        }
        None
    }

    /// The combined text of node `i`.
    pub fn text_of(&self, i: usize) -> (r: String)
        requires
            i < self.nodes@.len(),
        ensures
            r@ == self.nodes@[i as int].text@,
    {
        self.nodes[i].text.clone()
    }

    /// The inner markup of node `i`.
    pub fn inner_html_of(&self, i: usize) -> (r: String)
        requires
            i < self.nodes@.len(),
        ensures
            r@ == self.nodes@[i as int].inner_html@,
    {
        self.nodes[i].inner_html.clone()
    }
}

/// Whether the class-list text `v` contains `w` as a whole word.
pub fn class_has_word(v: &str, w: &str) -> (r: bool)
    ensures
        r == class_list_has(v@, w@),
{
    let n = v.unicode_len();
    let m = w.unicode_len();
    if m == 0 || m > n {
        proof {
            assert(forall|i: int| word_at(v@, w@, i) ==> i + w@.len() <= v@.len());
        }
        return false;
    }
    let mut i: usize = 0;
    while i <= n - m
        invariant
            n == v@.len(),
            m == w@.len(),
            1 <= m <= n,
            0 <= i <= n - m + 1,
            forall|j: int| 0 <= j < i ==> !word_at(v@, w@, j),
        decreases n - m + 1 - i,
    {
        if crate::text::occurs_at_exec(v, w, i) {
            let left_ok = i == 0 || crate::text::is_space(v.get_char(i - 1));
            let right_ok = i + m == n || crate::text::is_space(v.get_char(i + m));
            if left_ok && right_ok {
                proof {
                    assert(word_at(v@, w@, i as int));
                }
                return true;
            }
        }
        i = i + 1;
    }
    proof {
        assert(forall|j: int| word_at(v@, w@, j) ==> 0 <= j <= n - m);
    }
    false
}

/// Node `i` of `page` satisfies `p`, decided in code.
pub fn node_matches_exec(page: &Page, i: usize, p: &Pred) -> (r: bool)
    requires
        i < page.nodes@.len(),
    ensures
        r == node_matches(page.nodes@[i as int], p@),
{
    let tag_ok = match &p.tag {
        Some(t) => match &page.nodes[i].tag {
            Some(nt) => crate::text::str_eq(nt.as_str(), t.as_str()),
            None => false,
        },
        None => true,
    };
    if !tag_ok {
        return false;
    }
    let class_ok = match &p.class {
        Some(c) => match page.attr(i, "class") {
            Some(v) => class_has_word(v.as_str(), c.as_str()),
            None => false,
        },
        None => true,
    };
    if !class_ok {
        return false;
    }
    match &p.attr {
        Some(kv) => match page.attr(i, kv.0.as_str()) {
            Some(v) => crate::text::str_eq(v.as_str(), kv.1.as_str()),
            None => false,
        },
        None => true,
    }
}

/// Walking up at most `fuel` parent links from `i` reaches `root`,
/// decided in code.
fn in_subtree_fuel(page: &Page, root: usize, i: usize, fuel: usize) -> (r: bool)
    ensures
        r == in_subtree(page.nodes@, root as int, i as int, fuel as int),
    decreases fuel,
{
    if i == root {
        return true;
    }
    if fuel == 0 {
        return false;
    }
    if i >= page.nodes.len() {
        return false;
    }
    match page.nodes[i].parent {
        Some(par) => in_subtree_fuel(page, root, par, fuel - 1),
        None => false,
    }
}

/// `i` is a strict descendant of `root`, decided in code.
pub fn is_strict_desc(page: &Page, root: usize, i: usize) -> (r: bool)
    ensures
        r == strict_desc(page.nodes@, root as int, i as int),
{
    if i == root {
        return false;
    }
    in_subtree_fuel(page, root, i, page.nodes.len())
}

/// `i` lies inside the scope, decided in code.
fn in_scope_exec(page: &Page, roots: Option<&Vec<usize>>, i: usize) -> (r: bool)
    ensures
        r == in_scope(
            page.nodes@,
            match roots {
                Some(v) => Some(v@),
                None => None,
            },
            i as int,
        ),
{
    let ghost groots: Option<Seq<usize>> = match roots {
        Some(v) => Some(v@),
        None => None,
    };
    match roots {
        None => true,
        Some(rs) => {
            proof {
                assert(groots == Some(rs@));
            }
            let n = rs.len();
            let mut k: usize = 0;
            while k < n
                invariant
                    n == rs@.len(),
                    groots == Some(rs@),
                    groots == match roots {
                        Some(v) => Some(v@),
                        None => None,
                    },
                    0 <= k <= n,
                    forall|j: int| 0 <= j < k ==> !strict_desc(page.nodes@, rs@[j] as int, i as int),
                decreases n - k,
            {
                if is_strict_desc(page, rs[k], i) {
                    proof {
                        assert(0 <= k < rs@.len() && strict_desc(
                            page.nodes@,
                            rs@[k as int] as int,
                            i as int,
                        ));
                        assert(desc_of_any(page.nodes@, rs@, i as int));
                        assert(in_scope(page.nodes@, groots, i as int));
                    }
                    return true;
                }
                k = k + 1;
            }
            false
        },
    }
}

/// All nodes matching `p`, in document order, restricted to strict
/// descendants of `roots` when given.
pub fn find_all(page: &Page, roots: Option<&Vec<usize>>, p: &Pred) -> (r: Vec<usize>)
    ensures
        found_all(
            page.nodes@,
            match roots {
                Some(v) => Some(v@),
                None => None,
            },
            p@,
            r@,
        ),
{
    let ghost groots: Option<Seq<usize>> = match roots {
        Some(v) => Some(v@),
        None => None,
    };
    let n = page.nodes.len();
    let mut out: Vec<usize> = Vec::new();
    let mut i: usize = 0;
    while i < n
        invariant
            n == page.nodes@.len(),
            0 <= i <= n,
            groots == match roots {
                Some(v) => Some(v@),
                None => None,
            },
            forall|j: int| 0 <= j < out@.len() ==> hit(page.nodes@, groots, p@, #[trigger] out@[j] as int),
            forall|k: int| 0 <= k < i && hit(page.nodes@, groots, p@, k) ==> out@.contains(
                k as usize,
            ),
            forall|j: int| 0 <= j < out@.len() ==> #[trigger] out@[j] < i,
            forall|j1: int, j2: int| 0 <= j1 < j2 < out@.len() ==> out@[j1] < out@[j2],
        decreases n - i,
    {
        if node_matches_exec(page, i, p) && in_scope_exec(page, roots, i) {
            let ghost old_out = out@;
            out.push(i);
            proof {
                assert(out@ == old_out.push(i as usize));
                assert forall|k: int|
                    0 <= k < i + 1 && hit(page.nodes@, groots, p@, k) implies out@.contains(
                    k as usize,
                ) by {
                    if k < i {
                        let idx = choose|idx: int|
                            0 <= idx < old_out.len() && old_out[idx] == k as usize;
                        assert(out@[idx] == k as usize);
                    } else {
                        assert(out@[out@.len() - 1] == k as usize);
                    }
                }
            }
        } else {
            proof {
                assert forall|k: int|
                    0 <= k < i + 1 && hit(page.nodes@, groots, p@, k) implies out@.contains(
                    k as usize,
                ) by {
                    assert(k != i);
                }
            }
        }
        i = i + 1;
    }
    out
}

/// The first node matching `p` in the scope, if any.
pub fn find_first(page: &Page, roots: Option<&Vec<usize>>, p: &Pred) -> (r: Option<usize>)
    ensures
        found_first(
            page.nodes@,
            match roots {
                Some(v) => Some(v@),
                None => None,
            },
            p@,
            r,
        ),
{
    let ghost groots: Option<Seq<usize>> = match roots {
        Some(v) => Some(v@),
        None => None,
    };
    let n = page.nodes.len();
    let mut i: usize = 0;
    while i < n
        invariant
            n == page.nodes@.len(),
            0 <= i <= n,
            groots == match roots {
                Some(v) => Some(v@),
                None => None,
            },
            forall|j: int| 0 <= j < i ==> !hit(page.nodes@, groots, p@, j),
        decreases n - i,
    {
        if node_matches_exec(page, i, p) && in_scope_exec(page, roots, i) {
            return Some(i);
        }
        i = i + 1;
    }
    proof {
        assert(forall|j: int| hit(page.nodes@, groots, p@, j) ==> 0 <= j < n);
    }
    None
}

} // verus!
