//! Mathematical model of the path-tag relation.
//!
//! A store's abstract state is a `Rel`: a map from canonical path strings to
//! the set of tags attached to them. A path is in the domain exactly while it
//! carries at least one tag; the transition predicates below describe how the
//! batch mutations change a relation, and the query predicates describe which
//! paths a listing or a search must return.
use vstd::prelude::*;

verus! {

/// Abstract state of a tag store: each persisted path maps to its tag set.
pub type Rel = Map<Seq<char>, Set<Seq<char>>>;

/// Path `p` carries tag `t` in relation `m`.
pub open spec fn rel_has(m: Rel, p: Seq<char>, t: Seq<char>) -> bool {
    m.dom().contains(p) && m[p].contains(t)
}

/// A relation is well formed when every persisted path carries at least one
/// tag: a path with an empty tag set is garbage-collected, never kept.
pub open spec fn rel_wf(m: Rel) -> bool {
    forall|p: Seq<char>| #[trigger] m.dom().contains(p) ==> exists|t: Seq<char>| rel_has(m, p, t)
}

/// The views of a sequence of path (or tag) strings.
pub open spec fn str_views(ps: Seq<String>) -> Seq<Seq<char>> {
    Seq::new(ps.len(), |i: int| ps[i]@)
}

/// Membership in the views of a string sequence is membership by view.
pub proof fn lemma_str_views_contains(ps: Seq<String>)
    ensures
        forall|p: Seq<char>|
            #[trigger] str_views(ps).contains(p) <==> exists|j: int|
                0 <= j < ps.len() && (#[trigger] ps[j])@ == p,
{
    assert forall|p: Seq<char>| #[trigger] str_views(ps).contains(p) implies exists|j: int|
        0 <= j < ps.len() && (#[trigger] ps[j])@ == p by {
        let j = choose|j: int| 0 <= j < str_views(ps).len() && str_views(ps)[j] == p;
        assert(ps[j]@ == p);
    }
    assert forall|p: Seq<char>| (exists|j: int| 0 <= j < ps.len() && (#[trigger] ps[j])@ == p)
        implies #[trigger] str_views(ps).contains(p) by {
        let j = choose|j: int| 0 <= j < ps.len() && (#[trigger] ps[j])@ == p;
        assert(str_views(ps)[j] == p);
    }
}

/// No two elements of `r` are equal.
pub open spec fn distinct_seq(r: Seq<Seq<char>>) -> bool {
    forall|i: int, j: int| 0 <= i < j < r.len() ==> r[i] != r[j]
}

/// How appending one string changes the view sequence: it appends the
/// string's view, membership grows by exactly that view, and distinctness
/// is kept when the view was not there yet.
pub proof fn lemma_views_push(ps: Seq<String>, s: String)
    ensures
        str_views(ps.push(s)) == str_views(ps).push(s@),
        forall|p: Seq<char>|
            #[trigger] str_views(ps.push(s)).contains(p) <==> (str_views(ps).contains(p) || p
                == s@),
        distinct_seq(str_views(ps)) && !str_views(ps).contains(s@) ==> distinct_seq(
            str_views(ps.push(s)),
        ),
{
    assert(str_views(ps.push(s)) =~= str_views(ps).push(s@));
    assert forall|p: Seq<char>| #[trigger] str_views(ps.push(s)).contains(p) implies (str_views(
        ps,
    ).contains(p) || p == s@) by {
        let j = choose|j: int| 0 <= j < str_views(ps.push(s)).len() && str_views(ps.push(s))[j]
            == p;
        if j < ps.len() {
            assert(str_views(ps)[j] == p);
        }
    }
    assert forall|p: Seq<char>| (str_views(ps).contains(p) || p == s@) implies #[trigger] str_views(
        ps.push(s),
    ).contains(p) by {
        if str_views(ps).contains(p) {
            let j = choose|j: int| 0 <= j < str_views(ps).len() && str_views(ps)[j] == p;
            assert(str_views(ps.push(s))[j] == p);
        } else {
            assert(str_views(ps.push(s))[ps.len() as int] == p);
        }
    }
    if distinct_seq(str_views(ps)) && !str_views(ps).contains(s@) {
        assert forall|i: int, j: int| 0 <= i < j < str_views(ps.push(s)).len() implies str_views(
            ps.push(s),
        )[i] != str_views(ps.push(s))[j] by {
            if j < ps.len() {
                assert(str_views(ps)[i] == str_views(ps.push(s))[i]);
                assert(str_views(ps)[j] == str_views(ps.push(s))[j]);
            } else {
                assert(str_views(ps.push(s))[j] == s@);
                assert(str_views(ps)[i] == str_views(ps.push(s))[i]);
                if str_views(ps.push(s))[i] == s@ {
                    assert(str_views(ps).contains(s@));
                }
            }
        }
    }
}

/// `post` is `pre` with tag `t` attached to every path in `ps`, and nothing
/// else changed: no other association appears or disappears, and the set of
/// persisted paths grows by exactly the paths of the batch.
pub open spec fn rel_added(pre: Rel, post: Rel, ps: Seq<Seq<char>>, t: Seq<char>) -> bool {
    &&& forall|p: Seq<char>, t2: Seq<char>|
        #[trigger] rel_has(post, p, t2) <==> rel_has(pre, p, t2) || (ps.contains(p) && t2 == t)
    &&& forall|p: Seq<char>|
        #[trigger] post.dom().contains(p) <==> pre.dom().contains(p) || ps.contains(p)
}

/// `post` is `pre` with tag `t` detached from every path in `ps`, and nothing
/// else changed; a path left without tags is garbage-collected, so the domain
/// of `post` is exactly the set of paths that still carry some tag.
pub open spec fn rel_removed(pre: Rel, post: Rel, ps: Seq<Seq<char>>, t: Seq<char>) -> bool {
    &&& forall|p: Seq<char>, t2: Seq<char>|
        #[trigger] rel_has(post, p, t2) <==> rel_has(pre, p, t2) && !(ps.contains(p) && t2 == t)
    &&& forall|p: Seq<char>|
        #[trigger] post.dom().contains(p) <==> exists|t2: Seq<char>| rel_has(post, p, t2)
}

/// Path `p` carries at least one of the `incl` tags.
pub open spec fn has_any_of(m: Rel, p: Seq<char>, incl: Seq<Seq<char>>) -> bool {
    exists|j: int| 0 <= j < incl.len() && rel_has(m, p, #[trigger] incl[j])
}

/// Path `p` carries every one of the `incl` tags.
pub open spec fn has_all_of(m: Rel, p: Seq<char>, incl: Seq<Seq<char>>) -> bool {
    forall|j: int| 0 <= j < incl.len() ==> rel_has(m, p, #[trigger] incl[j])
}

/// Path `p` carries at least one of the `exclude` tags.
pub open spec fn hits_exclude(m: Rel, p: Seq<char>, exclude: Seq<Seq<char>>) -> bool {
    exists|j: int| 0 <= j < exclude.len() && rel_has(m, p, #[trigger] exclude[j])
}

/// Path `p` qualifies for a search: the `incl` set is non-empty (an empty
/// `incl` set matches nothing), `p` matches the `incl` set under the chosen
/// mode (`any`: at least one tag; all: every tag), and `p` carries none of
/// the excluded tags. Exclusion wins over inclusion in either mode.
pub open spec fn search_matches(
    m: Rel,
    p: Seq<char>,
    incl: Seq<Seq<char>>,
    exclude: Seq<Seq<char>>,
    any: bool,
) -> bool {
    &&& incl.len() > 0
    &&& if any {
        has_any_of(m, p, incl)
    } else {
        has_all_of(m, p, incl)
    }
    &&& !hits_exclude(m, p, exclude)
}

/// `r` is a correct answer for `list_tagged`: it holds exactly the paths
/// carrying tag `t`, each once, in some order.
pub open spec fn listing_of(r: Seq<Seq<char>>, m: Rel, t: Seq<char>) -> bool {
    &&& forall|i: int| 0 <= i < r.len() ==> rel_has(m, #[trigger] r[i], t)
    &&& forall|p: Seq<char>| rel_has(m, p, t) ==> #[trigger] r.contains(p)
    &&& distinct_seq(r)
}

/// `r` is a correct answer for `search_tags`: it holds exactly the matching
/// paths, each once, in some order.
pub open spec fn search_listing_of(
    r: Seq<Seq<char>>,
    m: Rel,
    incl: Seq<Seq<char>>,
    exclude: Seq<Seq<char>>,
    any: bool,
) -> bool {
    &&& forall|i: int| 0 <= i < r.len() ==> search_matches(m, #[trigger] r[i], incl, exclude, any)
    &&& forall|p: Seq<char>| search_matches(m, p, incl, exclude, any) ==> #[trigger] r.contains(p)
    &&& distinct_seq(r)
}

/// `r` is a correct answer for a tag lookup on one path: exactly the tags
/// that `p` carries, each once, in some order.
pub open spec fn tag_listing_of(r: Seq<Seq<char>>, m: Rel, p: Seq<char>) -> bool {
    &&& forall|i: int| 0 <= i < r.len() ==> rel_has(m, p, #[trigger] r[i])
    &&& forall|t: Seq<char>| rel_has(m, p, t) ==> #[trigger] r.contains(t)
    &&& distinct_seq(r)
}

/// `r` is a correct tag lookup answer for some path: used where the looked
/// up path was resolved against the filesystem and is not known abstractly.
pub open spec fn some_tag_listing(r: Seq<Seq<char>>, m: Rel) -> bool {
    exists|c: Seq<char>| tag_listing_of(r, m, c)
}

} // verus!
