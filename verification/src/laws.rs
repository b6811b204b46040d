//! Laws of the tag store, stated and proved over the abstract relation.
//!
//! Each law quantifies over relations and transition steps, so it covers
//! every store state and every input: the store's operations ensure the
//! corresponding transition predicates, and these lemmas say what the
//! transitions imply.
use vstd::prelude::*;

use crate::model::{
    Rel, rel_has, rel_wf, rel_added, rel_removed, search_matches, listing_of, search_listing_of,
};

verus! {

/// Adding the same batch twice yields the same relation as adding it once:
/// attaching an association that is already present is a no-op, never a
/// duplicate and never an error.
pub proof fn lemma_add_idempotent(m0: Rel, m1: Rel, m2: Rel, ps: Seq<Seq<char>>, t: Seq<char>)
    requires
        rel_added(m0, m1, ps, t),
        rel_added(m1, m2, ps, t),
    ensures
        m2 == m1,
{
    assert forall|p: Seq<char>| #[trigger] m1.dom().contains(p) implies m1[p] =~= m2[p] by {
        assert(m2.dom().contains(p));
        assert forall|t2: Seq<char>| #[trigger] m1[p].contains(t2) <==> m2[p].contains(t2) by {
            assert(rel_has(m1, p, t2) <==> m1.dom().contains(p) && m1[p].contains(t2));
            assert(rel_has(m2, p, t2) <==> m2.dom().contains(p) && m2[p].contains(t2));
        }
    }
    assert(m1.dom() =~= m2.dom());
    assert(m1 =~~= m2);
}

/// Removing an association that is not present succeeds and changes
/// nothing: removal is tolerant.
pub proof fn lemma_remove_absent_noop(m0: Rel, m1: Rel, p: Seq<char>, t: Seq<char>)
    requires
        rel_wf(m0),
        !rel_has(m0, p, t),
        rel_removed(m0, m1, seq![p], t),
    ensures
        m1 == m0,
{
    assert forall|q: Seq<char>| #[trigger] seq![p].contains(q) implies q == p by {
        let i = choose|i: int| 0 <= i < seq![p].len() && seq![p][i] == q;
    }
    assert(seq![p][0] == p);
    assert(seq![p].contains(p));
    assert forall|q: Seq<char>, t2: Seq<char>| #[trigger] rel_has(m1, q, t2) <==> rel_has(
        m0,
        q,
        t2,
    ) by {
        if q == p && t2 == t {
            assert(!rel_has(m0, q, t2));
        }
    }
    assert forall|q: Seq<char>| #[trigger] m1.dom().contains(q) <==> m0.dom().contains(q) by {
        if m1.dom().contains(q) {
            let t2 = choose|t2: Seq<char>| rel_has(m1, q, t2);
            assert(rel_has(m0, q, t2));
        }
        if m0.dom().contains(q) {
            let t2 = choose|t2: Seq<char>| rel_has(m0, q, t2);
            assert(rel_has(m1, q, t2));
        }
    }
    assert forall|q: Seq<char>| #[trigger] m0.dom().contains(q) implies m0[q] =~= m1[q] by {
        assert(m1.dom().contains(q));
        assert forall|t2: Seq<char>| #[trigger] m0[q].contains(t2) <==> m1[q].contains(t2) by {
            assert(rel_has(m0, q, t2) <==> m0.dom().contains(q) && m0[q].contains(t2));
            assert(rel_has(m1, q, t2) <==> m1.dom().contains(q) && m1[q].contains(t2));
        }
    }
    assert(m0.dom() =~= m1.dom());
    assert(m0 =~~= m1);
}

/// Garbage collection: when `t` is the only tag of path `p`, removing it
/// removes the path entity itself — `p` is no longer persisted, carries no
/// tag, and appears in no later listing or search result for any query.
pub proof fn lemma_gc_last_tag(m0: Rel, m1: Rel, p: Seq<char>, t: Seq<char>)
    requires
        rel_has(m0, p, t),
        forall|t2: Seq<char>| #[trigger] rel_has(m0, p, t2) ==> t2 == t,
        rel_removed(m0, m1, seq![p], t),
    ensures
        !m1.dom().contains(p),
        forall|t2: Seq<char>| !rel_has(m1, p, t2),
        forall|r: Seq<Seq<char>>, t2: Seq<char>| listing_of(r, m1, t2) ==> !r.contains(p),
        forall|r: Seq<Seq<char>>, incl: Seq<Seq<char>>, exclude: Seq<Seq<char>>, any: bool|
            search_listing_of(r, m1, incl, exclude, any) ==> !r.contains(p),
{
    assert(seq![p][0] == p);
    assert(seq![p].contains(p));
    assert forall|t2: Seq<char>| !rel_has(m1, p, t2) by {
        if rel_has(m1, p, t2) {
            assert(rel_has(m0, p, t2) && !(seq![p].contains(p) && t2 == t));
            assert(t2 == t);
        }
    }
    assert forall|r: Seq<Seq<char>>, t2: Seq<char>| #[trigger] listing_of(r, m1, t2) implies !r.contains(
        p,
    ) by {
        if r.contains(p) {
            let i = choose|i: int| 0 <= i < r.len() && r[i] == p;
            assert(rel_has(m1, r[i], t2));
        }
    }
    assert forall|r: Seq<Seq<char>>, incl: Seq<Seq<char>>, exclude: Seq<Seq<char>>, any: bool|
        #[trigger] search_listing_of(r, m1, incl, exclude, any) implies !r.contains(p) by {
        if r.contains(p) {
            let i = choose|i: int| 0 <= i < r.len() && r[i] == p;
            assert(search_matches(m1, r[i], incl, exclude, any));
            if any {
                let j = choose|j: int| 0 <= j < incl.len() && rel_has(m1, p, #[trigger] incl[j]);
                assert(!rel_has(m1, p, incl[j]));
            } else {
                assert(rel_has(m1, p, incl[0]));
            }
        }
    }
}

/// Canonicalization equivalence: two spellings of one file share one
/// canonical path `c`, so tagging the file under either spelling touches
/// the single entity `c` — the first add persists exactly `c`, and the
/// second changes nothing.
pub proof fn lemma_canonical_single_entity(m0: Rel, m1: Rel, m2: Rel, c: Seq<char>, t: Seq<char>)
    requires
        rel_added(m0, m1, seq![c], t),
        rel_added(m1, m2, seq![c], t),
    ensures
        m1.dom() == m0.dom().insert(c),
        m2 == m1,
{
    lemma_add_idempotent(m0, m1, m2, seq![c], t);
    assert(seq![c][0] == c);
    assert(seq![c].contains(c));
    assert forall|q: Seq<char>| #[trigger] seq![c].contains(q) implies q == c by {
        let i = choose|i: int| 0 <= i < seq![c].len() && seq![c][i] == q;
    }
    assert(m1.dom() =~= m0.dom().insert(c));
}

/// All-mode results are a subset of any-mode results for the same query: a
/// path carrying every tag of the (non-empty) inclusion set in particular
/// carries one of them.
pub proof fn lemma_all_implies_any(
    m: Rel,
    p: Seq<char>,
    incl: Seq<Seq<char>>,
    exclude: Seq<Seq<char>>,
)
    requires
        search_matches(m, p, incl, exclude, false),
    ensures
        search_matches(m, p, incl, exclude, true),
{
    assert(rel_has(m, p, incl[0]));
}

/// Vacuous inclusion: an empty inclusion set matches no path at all,
/// whatever the mode and whatever the exclusions.
pub proof fn lemma_vacuous_search(m: Rel, p: Seq<char>, exclude: Seq<Seq<char>>, any: bool)
    ensures
        !search_matches(m, p, Seq::<Seq<char>>::empty(), exclude, any),
{
}

/// Exclusion precedence: a path carrying any excluded tag never matches a
/// search, however strongly it matches the inclusion set and in either
/// mode.
pub proof fn lemma_exclusion_precedence(
    m: Rel,
    p: Seq<char>,
    incl: Seq<Seq<char>>,
    exclude: Seq<Seq<char>>,
    any: bool,
    j: int,
)
    requires
        0 <= j < exclude.len(),
        rel_has(m, p, exclude[j]),
    ensures
        !search_matches(m, p, incl, exclude, any),
{
}

} // verus!
