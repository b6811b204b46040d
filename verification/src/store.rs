//! The tag store: owner of the persisted path-tag relation.
//!
//! A `TagStore` keeps the relation as a list of unique (path, tag)
//! associations, mirrored row for row in an embedded SQLite database. The
//! list is the verified model: every operation's contract is stated against
//! the abstract relation (`Rel`) it represents. Batch mutations write the
//! database first, inside one transaction, and update the model only after
//! a successful commit, so any failure leaves the store exactly as it was.
use vstd::prelude::*;

use crate::TagError;
use crate::db;
use crate::model::{
    Rel, rel_has, rel_wf, rel_added, rel_removed, str_views, distinct_seq, has_any_of, has_all_of,
    hits_exclude, search_matches, listing_of, search_listing_of, tag_listing_of,
};

verus! {

/// One persisted association: a canonical path string and a tag attached to
/// it.
pub struct Assoc {
    pub path: String,
    pub tag: String,
}

/// The pair (p, t) occurs in the association list.
pub open spec fn seq_has(es: Seq<Assoc>, p: Seq<char>, t: Seq<char>) -> bool {
    exists|i: int| 0 <= i < es.len() && (#[trigger] es[i]).path@ == p && es[i].tag@ == t
}

/// No association occurs twice: adding an existing pair must never
/// duplicate storage.
pub open spec fn distinct_assocs(es: Seq<Assoc>) -> bool {
    forall|i: int, j: int|
        #![trigger es[i], es[j]]
        0 <= i < j < es.len() ==> !(es[i].path@ == es[j].path@ && es[i].tag@ == es[j].tag@)
}

/// The abstract relation that an association list represents: a path is in
/// the domain exactly while some pair mentions it, and maps to the set of
/// tags paired with it.
pub open spec fn assoc_rel(es: Seq<Assoc>) -> Rel {
    Map::new(
        |p: Seq<char>| exists|t: Seq<char>| seq_has(es, p, t),
        |p: Seq<char>| Set::new(|t: Seq<char>| seq_has(es, p, t)),
    )
}

/// The represented relation holds a pair exactly when the list does, its
/// domain holds exactly the paths with at least one tag, and it is well
/// formed.
pub proof fn lemma_assoc_rel_has(es: Seq<Assoc>)
    ensures
        forall|p: Seq<char>, t: Seq<char>|
            #[trigger] rel_has(assoc_rel(es), p, t) <==> seq_has(es, p, t),
        forall|p: Seq<char>|
            #[trigger] assoc_rel(es).dom().contains(p) <==> exists|t: Seq<char>|
                seq_has(es, p, t),
        rel_wf(assoc_rel(es)),
{
    assert forall|p: Seq<char>, t: Seq<char>|
        #[trigger] rel_has(assoc_rel(es), p, t) <==> seq_has(es, p, t) by {
        if seq_has(es, p, t) {
            assert(assoc_rel(es).dom().contains(p));
            assert(assoc_rel(es)[p].contains(t));
        }
    }
    assert forall|p: Seq<char>| #[trigger] assoc_rel(es).dom().contains(p) implies exists|t: Seq<
        char,
    >| rel_has(assoc_rel(es), p, t) by {
        let t = choose|t: Seq<char>| seq_has(es, p, t);
        assert(rel_has(assoc_rel(es), p, t));
    }
}

/// The pair (p, t) occurs in the pushed list exactly when it occurs in the
/// old list or is the pushed pair.
proof fn lemma_seq_has_push(es: Seq<Assoc>, a: Assoc)
    ensures
        forall|p: Seq<char>, t: Seq<char>|
            #[trigger] seq_has(es.push(a), p, t) <==> (seq_has(es, p, t) || (p == a.path@ && t
                == a.tag@)),
{
    assert forall|p: Seq<char>, t: Seq<char>| #[trigger] seq_has(es.push(a), p, t) implies (
    seq_has(es, p, t) || (p == a.path@ && t == a.tag@)) by {
        let i = choose|i: int|
            0 <= i < es.push(a).len() && (#[trigger] es.push(a)[i]).path@ == p && es.push(
                a,
            )[i].tag@ == t;
        if i < es.len() {
            assert(es[i] == es.push(a)[i]);
        } else {
            assert(es.push(a)[i] == a);
        }
    }
    assert forall|p: Seq<char>, t: Seq<char>| (seq_has(es, p, t) || (p == a.path@ && t == a.tag@))
        implies #[trigger] seq_has(es.push(a), p, t) by {
        if seq_has(es, p, t) {
            let i = choose|i: int|
                0 <= i < es.len() && (#[trigger] es[i]).path@ == p && es[i].tag@ == t;
            assert(es.push(a)[i] == es[i]);
        } else {
            assert(es.push(a)[es.len() as int] == a);
        }
    }
}

/// Removing index k from a duplicate-free list removes exactly the pair
/// stored there, and keeps the list duplicate-free.
proof fn lemma_seq_has_remove(es: Seq<Assoc>, k: int)
    requires
        0 <= k < es.len(),
        distinct_assocs(es),
    ensures
        distinct_assocs(es.remove(k)),
        forall|p: Seq<char>, t: Seq<char>|
            #[trigger] seq_has(es.remove(k), p, t) <==> (seq_has(es, p, t) && !(p == es[k].path@
                && t == es[k].tag@)),
{
    let rs = es.remove(k);
    assert forall|p: Seq<char>, t: Seq<char>| #[trigger] seq_has(rs, p, t) implies (seq_has(
        es,
        p,
        t,
    ) && !(p == es[k].path@ && t == es[k].tag@)) by {
        let i = choose|i: int| 0 <= i < rs.len() && (#[trigger] rs[i]).path@ == p && rs[i].tag@
            == t;
        let oi = if i < k {
            i
        } else {
            i + 1
        };
        assert(es[oi] == rs[i]);
        assert(seq_has(es, p, t));
        if p == es[k].path@ && t == es[k].tag@ {
            if oi < k {
                assert(!(es[oi].path@ == es[k].path@ && es[oi].tag@ == es[k].tag@));
            } else {
                assert(!(es[k].path@ == es[oi].path@ && es[k].tag@ == es[oi].tag@));
            }
        }
    }
    assert forall|p: Seq<char>, t: Seq<char>| (seq_has(es, p, t) && !(p == es[k].path@ && t
        == es[k].tag@)) implies #[trigger] seq_has(rs, p, t) by {
        let i = choose|i: int|
            0 <= i < es.len() && (#[trigger] es[i]).path@ == p && es[i].tag@ == t;
        if i < k {
            assert(rs[i] == es[i]);
        } else {
            assert(i != k);
            assert(rs[i - 1] == es[i]);
        }
    }
}

/// Pointwise pair reasoning lifted to the abstract relation: a list change
/// that attaches tag `t` to exactly the paths of `ps` is a `rel_added` step.
proof fn lemma_added_lift(pre: Seq<Assoc>, post: Seq<Assoc>, ps: Seq<String>, t: Seq<char>)
    requires
        forall|p: Seq<char>, t2: Seq<char>|
            #[trigger] seq_has(post, p, t2) <==> (seq_has(pre, p, t2) || ((exists|j: int|
                0 <= j < ps.len() && (#[trigger] ps[j])@ == p) && t2 == t)),
    ensures
        rel_added(assoc_rel(pre), assoc_rel(post), str_views(ps), t),
{
    lemma_assoc_rel_has(pre);
    lemma_assoc_rel_has(post);
    crate::model::lemma_str_views_contains(ps);
    let m0 = assoc_rel(pre);
    let m1 = assoc_rel(post);
    assert forall|p: Seq<char>|
        #[trigger] m1.dom().contains(p) <==> (m0.dom().contains(p) || str_views(ps).contains(
        p,
    )) by {
        if m1.dom().contains(p) {
            let t2 = choose|t2: Seq<char>| seq_has(post, p, t2);
            assert(seq_has(post, p, t2));
        }
        if m0.dom().contains(p) {
            let t2 = choose|t2: Seq<char>| seq_has(pre, p, t2);
            assert(seq_has(post, p, t2));
        }
        if str_views(ps).contains(p) {
            assert(seq_has(post, p, t));
        }
    }
}

/// Pointwise pair reasoning lifted to the abstract relation: a list change
/// that detaches tag `t` from exactly the paths of `ps` is a `rel_removed`
/// step.
proof fn lemma_removed_lift(pre: Seq<Assoc>, post: Seq<Assoc>, ps: Seq<String>, t: Seq<char>)
    requires
        forall|p: Seq<char>, t2: Seq<char>|
            #[trigger] seq_has(post, p, t2) <==> (seq_has(pre, p, t2) && !((exists|j: int|
                0 <= j < ps.len() && (#[trigger] ps[j])@ == p) && t2 == t)),
    ensures
        rel_removed(assoc_rel(pre), assoc_rel(post), str_views(ps), t),
{
    lemma_assoc_rel_has(pre);
    lemma_assoc_rel_has(post);
    crate::model::lemma_str_views_contains(ps);
    let m1 = assoc_rel(post);
    assert forall|p: Seq<char>|
        #[trigger] m1.dom().contains(p) <==> exists|t2: Seq<char>| rel_has(m1, p, t2) by {
        if m1.dom().contains(p) {
            let t2 = choose|t2: Seq<char>| seq_has(post, p, t2);
            assert(rel_has(m1, p, t2));
        }
        if exists|t2: Seq<char>| rel_has(m1, p, t2) {
            let t2 = choose|t2: Seq<char>| rel_has(m1, p, t2);
            assert(seq_has(post, p, t2));
        }
    }
}

/// True exactly when the association (path, tag) is stored.
fn contains_pair(es: &Vec<Assoc>, path: &String, tag: &String) -> (r: bool)
    ensures
        r == seq_has(es@, path@, tag@),
{
    let mut i: usize = 0;
    while i < es.len()
        invariant
            0 <= i <= es@.len(),
            forall|j: int|
                0 <= j < i ==> !((#[trigger] es@[j]).path@ == path@ && es@[j].tag@ == tag@),
        decreases es@.len() - i,
    {
        if es[i].path == *path && es[i].tag == *tag {
            return true;
        }
        i += 1;
    }
    false
}

/// Attaches the pair (path, tag) to the in-memory list, unless it is
/// already there.
fn add_pair(es: &mut Vec<Assoc>, path: &String, tag: &String)
    requires
        distinct_assocs(old(es)@),
    ensures
        distinct_assocs(final(es)@),
        forall|p: Seq<char>, t: Seq<char>|
            #[trigger] seq_has(final(es)@, p, t) <==> (seq_has(old(es)@, p, t) || (p == path@ && t
                == tag@)),
{
    if !contains_pair(es, path, tag) {
        let a = Assoc { path: path.clone(), tag: tag.clone() };
        proof {
            lemma_seq_has_push(es@, a);
            assert forall|i: int, j: int|
                #![trigger es@.push(a)[i], es@.push(a)[j]]
                0 <= i < j < es@.push(a).len() implies !(es@.push(a)[i].path@ == es@.push(
                a,
            )[j].path@ && es@.push(a)[i].tag@ == es@.push(a)[j].tag@) by {
                if j < es@.len() {
                    assert(es@.push(a)[i] == es@[i] && es@.push(a)[j] == es@[j]);
                } else {
                    assert(es@.push(a)[j] == a);
                    assert(es@.push(a)[i] == es@[i]);
                    if es@[i].path@ == a.path@ && es@[i].tag@ == a.tag@ {
                        assert(seq_has(es@, path@, tag@));
                    }
                }
            }
        }
        es.push(a);
    }
}

/// Detaches the pair (path, tag) from the in-memory list; a pair that is
/// not there is left alone.
fn remove_pair(es: &mut Vec<Assoc>, path: &String, tag: &String)
    requires
        distinct_assocs(old(es)@),
    ensures
        distinct_assocs(final(es)@),
        forall|p: Seq<char>, t: Seq<char>|
            #[trigger] seq_has(final(es)@, p, t) <==> (seq_has(old(es)@, p, t) && !(p == path@ && t
                == tag@)),
{
    let mut i: usize = 0;
    while i < es.len()
        invariant
            0 <= i <= es@.len(),
            es@ == old(es)@,
            distinct_assocs(es@),
            forall|j: int|
                0 <= j < i ==> !((#[trigger] es@[j]).path@ == path@ && es@[j].tag@ == tag@),
        decreases es@.len() - i,
    {
        if es[i].path == *path && es[i].tag == *tag {
            proof {
                lemma_seq_has_remove(es@, i as int);
            }
            es.remove(i);
            return ;
        }
        i += 1;
    }
    assert(!seq_has(es@, path@, tag@));
}

/// Drops duplicate rows; the represented relation is unchanged. The rows
/// come from the database on disk, so the store trusts nothing about them.
fn dedup_assocs(rows: Vec<Assoc>) -> (r: Vec<Assoc>)
    ensures
        distinct_assocs(r@),
        forall|p: Seq<char>, t: Seq<char>|
            #[trigger] seq_has(r@, p, t) <==> seq_has(rows@, p, t),
{
    let mut out: Vec<Assoc> = Vec::new();
    let mut i: usize = 0;
    while i < rows.len()
        invariant
            0 <= i <= rows@.len(),
            distinct_assocs(out@),
            forall|p: Seq<char>, t: Seq<char>|
                #[trigger] seq_has(out@, p, t) <==> exists|j: int|
                    0 <= j < i && (#[trigger] rows@[j]).path@ == p && rows@[j].tag@ == t,
        decreases rows@.len() - i,
    {
        let a = &rows[i];
        if !contains_pair(&out, &a.path, &a.tag) {
            let ghost pre = out@;
            let cp = Assoc { path: a.path.clone(), tag: a.tag.clone() };
            proof {
                lemma_seq_has_push(pre, cp);
            }
            out.push(cp);
            proof {
                assert forall|k1: int, k2: int|
                    #![trigger out@[k1], out@[k2]]
                    0 <= k1 < k2 < out@.len() implies !(out@[k1].path@ == out@[k2].path@
                    && out@[k1].tag@ == out@[k2].tag@) by {
                    if k2 < pre.len() {
                        assert(out@[k1] == pre[k1] && out@[k2] == pre[k2]);
                    } else {
                        assert(out@[k1] == pre[k1]);
                        if pre[k1].path@ == rows@[i as int].path@ && pre[k1].tag@ == rows@[i
                            as int].tag@ {
                            assert(seq_has(pre, rows@[i as int].path@, rows@[i as int].tag@));
                        }
                    }
                }
            }
        } else {
            assert(seq_has(out@, rows@[i as int].path@, rows@[i as int].tag@));
        }
        i += 1;
    }
    out
}

/// True exactly when some element of `v` has the view of `s`.
fn contains_str(v: &Vec<String>, s: &String) -> (r: bool)
    ensures
        r == str_views(v@).contains(s@),
{
    proof {
        crate::model::lemma_str_views_contains(v@);
    }
    let mut i: usize = 0;
    while i < v.len()
        invariant
            0 <= i <= v@.len(),
            forall|j: int| 0 <= j < i ==> (#[trigger] v@[j])@ != s@,
        decreases v@.len() - i,
    {
        if v[i] == *s {
            proof {
                crate::model::lemma_str_views_contains(v@);
            }
            return true;
        }
        i += 1;
    }
    proof {
        crate::model::lemma_str_views_contains(v@);
    }
    false
}

/// True exactly when path `p` carries at least one of `tags`.
fn holds_any(es: &Vec<Assoc>, p: &String, tags: &Vec<String>) -> (r: bool)
    ensures
        r == (exists|j: int| 0 <= j < tags@.len() && seq_has(es@, p@, (#[trigger] tags@[j])@)),
{
    let mut j: usize = 0;
    while j < tags.len()
        invariant
            0 <= j <= tags@.len(),
            forall|k: int| 0 <= k < j ==> !seq_has(es@, p@, (#[trigger] tags@[k])@),
        decreases tags@.len() - j,
    {
        if contains_pair(es, p, &tags[j]) {
            return true;
        }
        j += 1;
    }
    false
}

/// True exactly when path `p` carries every one of `tags`.
fn holds_all(es: &Vec<Assoc>, p: &String, tags: &Vec<String>) -> (r: bool)
    ensures
        r == (forall|j: int| 0 <= j < tags@.len() ==> seq_has(es@, p@, (#[trigger] tags@[j])@)),
{
    let mut j: usize = 0;
    while j < tags.len()
        invariant
            0 <= j <= tags@.len(),
            forall|k: int| 0 <= k < j ==> seq_has(es@, p@, (#[trigger] tags@[k])@),
        decreases tags@.len() - j,
    {
        if !contains_pair(es, p, &tags[j]) {
            return false;
        }
        j += 1;
    }
    true
}

/// Decides, for one path, the full search predicate: non-empty inclusion
/// under the chosen mode, then exclusion.
fn matches_query(es: &Vec<Assoc>, p: &String, incl: &Vec<String>, exclude: &Vec<String>, any: bool)
    -> (r: bool)
    ensures
        r == search_matches(
            assoc_rel(es@),
            p@,
            str_views(incl@),
            str_views(exclude@),
            any,
        ),
{
    let m = Ghost(assoc_rel(es@));
    proof {
        lemma_assoc_rel_has(es@);
    }
    let matched = if incl.len() == 0 {
        false
    } else if any {
        holds_any(es, p, incl)
    } else {
        holds_all(es, p, incl)
    };
    let shut_out = holds_any(es, p, exclude);
    proof {
        let iv = str_views(incl@);
        let ev = str_views(exclude@);
        assert(has_any_of(m@, p@, iv) <==> (exists|j: int|
            0 <= j < incl@.len() && seq_has(es@, p@, (#[trigger] incl@[j])@))) by {
            if has_any_of(m@, p@, iv) {
                let j = choose|j: int| 0 <= j < iv.len() && rel_has(m@, p@, #[trigger] iv[j]);
                assert(seq_has(es@, p@, incl@[j]@));
            }
            if exists|j: int| 0 <= j < incl@.len() && seq_has(es@, p@, (#[trigger] incl@[j])@) {
                let j = choose|j: int|
                    0 <= j < incl@.len() && seq_has(es@, p@, (#[trigger] incl@[j])@);
                assert(rel_has(m@, p@, iv[j]));
            }
        }
        assert(has_all_of(m@, p@, iv) <==> (forall|j: int|
            0 <= j < incl@.len() ==> seq_has(es@, p@, (#[trigger] incl@[j])@))) by {
            if forall|j: int| 0 <= j < incl@.len() ==> seq_has(es@, p@, (#[trigger] incl@[j])@) {
                assert forall|j: int| 0 <= j < iv.len() implies rel_has(m@, p@, #[trigger] iv[j]) by {
                    assert(seq_has(es@, p@, incl@[j]@));
                }
            }
            if has_all_of(m@, p@, iv) {
                assert forall|j: int| 0 <= j < incl@.len() implies seq_has(
                    es@,
                    p@,
                    (#[trigger] incl@[j])@,
                ) by {
                    assert(rel_has(m@, p@, iv[j]));
                }
            }
        }
        assert(hits_exclude(m@, p@, ev) <==> (exists|j: int|
            0 <= j < exclude@.len() && seq_has(es@, p@, (#[trigger] exclude@[j])@))) by {
            if hits_exclude(m@, p@, ev) {
                let j = choose|j: int| 0 <= j < ev.len() && rel_has(m@, p@, #[trigger] ev[j]);
                assert(seq_has(es@, p@, exclude@[j]@));
            }
            if exists|j: int| 0 <= j < exclude@.len() && seq_has(es@, p@, (#[trigger] exclude@[j])@) {
                let j = choose|j: int|
                    0 <= j < exclude@.len() && seq_has(es@, p@, (#[trigger] exclude@[j])@);
                assert(rel_has(m@, p@, ev[j]));
            }
        }
    }
    matched && !shut_out
}

/// The tag store. It is constructed by `new`, owns one database connection
/// for its lifetime, and is the sole reader and writer of the persisted
/// relation.
pub struct TagStore {
    conn: rusqlite::Connection,
    assocs: Vec<Assoc>,
}

impl View for TagStore {
    type V = Rel;

    /// The abstract relation this store holds.
    closed spec fn view(&self) -> Rel {
        assoc_rel(self.assocs@)
    }
}

impl TagStore {
    /// Internal well-formedness: no association is stored twice.
    pub closed spec fn wf(&self) -> bool {
        distinct_assocs(self.assocs@)
    }

    /// Every store's relation is well formed: a path is persisted only
    /// while it carries at least one tag.
    pub proof fn lemma_view_wf(&self)
        ensures
            rel_wf(self@),
    {
        lemma_assoc_rel_has(self.assocs@);
    }

    /// Opens (creating it if absent) the database at `db_path`, makes sure
    /// the schema exists, and loads the persisted relation. Any
    /// initialization failure is fatal and reported as `StorageUnavailable`.
    pub fn new(db_path: &String) -> (r: Result<TagStore, TagError>)
        ensures
            match r {
                Ok(store) => store.wf(),
                Err(e) => e == TagError::StorageUnavailable,
            },
    {
        let conn = match db::open_db(db_path) {
            Ok(conn) => conn,
            Err(()) => return Err(TagError::StorageUnavailable),
        };
        match db::init_schema(&conn) {
            Ok(()) => (),
            Err(()) => return Err(TagError::StorageUnavailable),
        };
        let rows = match db::load_rows(&conn) {
            Ok(rows) => rows,
            Err(()) => return Err(TagError::StorageUnavailable),
        };
        let assocs = dedup_assocs(rows);
        Ok(TagStore { conn, assocs })
    }

    /// Attaches `tag` to every path of `paths`, which are taken to be
    /// canonical already, as one atomic batch: either every association is
    /// durably committed and mirrored in the model, or a storage failure
    /// rolls the transaction back and the store is exactly as it was.
    pub fn add_canonical_batch(&mut self, paths: &Vec<String>, tag: &String) -> (r: Result<
        (),
        TagError,
    >)
        requires
            old(self).wf(),
            tag@.len() > 0,
        ensures
            final(self).wf(),
            match r {
                Ok(()) => rel_added(old(self)@, final(self)@, str_views(paths@), tag@),
                Err(e) => final(self)@ == old(self)@ && e == TagError::StorageBusy,
            },
    {
        match db::begin_tx(&self.conn) {
            Ok(()) => (),
            Err(()) => return Err(TagError::StorageBusy),
        };
        match db::insert_tag_row(&self.conn, tag) {
            Ok(()) => (),
            Err(()) => {
                let _ = db::rollback_tx(&self.conn);
                return Err(TagError::StorageBusy);
            },
        };
        let mut i: usize = 0;
        while i < paths.len()
            invariant
                self == old(self),
                old(self).wf(),
            decreases paths@.len() - i,
        {
            match db::insert_file_row(&self.conn, &paths[i]) {
                Ok(()) => (),
                Err(()) => {
                    let _ = db::rollback_tx(&self.conn);
                    return Err(TagError::StorageBusy);
                },
            };
            match db::insert_assoc_row(&self.conn, &paths[i], tag) {
                Ok(()) => (),
                Err(()) => {
                    let _ = db::rollback_tx(&self.conn);
                    return Err(TagError::StorageBusy);
                },
            };
            i += 1;
        }
        match db::commit_tx(&self.conn) {
            Ok(()) => (),
            Err(()) => {
                let _ = db::rollback_tx(&self.conn);
                return Err(TagError::StorageBusy);
            },
        };
        // The batch is durable; mirror it in the model, which cannot fail.
        let mut i: usize = 0;
        while i < paths.len()
            invariant
                0 <= i <= paths@.len(),
                distinct_assocs(self.assocs@),
                forall|p: Seq<char>, t2: Seq<char>|
                    #[trigger] seq_has(self.assocs@, p, t2) <==> (seq_has(
                        old(self).assocs@,
                        p,
                        t2,
                    ) || ((exists|j: int| 0 <= j < i && (#[trigger] paths@[j])@ == p) && t2
                        == tag@)),
            decreases paths@.len() - i,
        {
            add_pair(&mut self.assocs, &paths[i], tag);
            i += 1;
        }
        proof {
            lemma_added_lift(old(self).assocs@, self.assocs@, paths@, tag@);
        }
        Ok(())
    }

    /// Detaches `tag` from every path of `paths`, which are taken to be
    /// canonical already, as one atomic batch; pairs that were never
    /// present are silently skipped, and a path left without tags is
    /// garbage-collected. On a storage failure the transaction rolls back
    /// and the store is exactly as it was.
    pub fn remove_canonical_batch(&mut self, paths: &Vec<String>, tag: &String) -> (r: Result<
        (),
        TagError,
    >)
        requires
            old(self).wf(),
        ensures
            final(self).wf(),
            match r {
                Ok(()) => rel_removed(old(self)@, final(self)@, str_views(paths@), tag@),
                Err(e) => final(self)@ == old(self)@ && e == TagError::StorageBusy,
            },
    {
        match db::begin_tx(&self.conn) {
            Ok(()) => (),
            Err(()) => return Err(TagError::StorageBusy),
        };
        let mut i: usize = 0;
        while i < paths.len()
            invariant
                self == old(self),
                old(self).wf(),
            decreases paths@.len() - i,
        {
            match db::delete_assoc_row(&self.conn, &paths[i], tag) {
                Ok(()) => (),
                Err(()) => {
                    let _ = db::rollback_tx(&self.conn);
                    return Err(TagError::StorageBusy);
                },
            };
            i += 1;
        }
        match db::delete_orphan_files(&self.conn) {
            Ok(()) => (),
            Err(()) => {
                let _ = db::rollback_tx(&self.conn);
                return Err(TagError::StorageBusy);
            },
        };
        match db::commit_tx(&self.conn) {
            Ok(()) => (),
            Err(()) => {
                let _ = db::rollback_tx(&self.conn);
                return Err(TagError::StorageBusy);
            },
        };
        // The batch is durable; mirror it in the model, which cannot fail.
        let mut i: usize = 0;
        while i < paths.len()
            invariant
                0 <= i <= paths@.len(),
                distinct_assocs(self.assocs@),
                forall|p: Seq<char>, t2: Seq<char>|
                    #[trigger] seq_has(self.assocs@, p, t2) <==> (seq_has(
                        old(self).assocs@,
                        p,
                        t2,
                    ) && !((exists|j: int| 0 <= j < i && (#[trigger] paths@[j])@ == p) && t2
                        == tag@)),
            decreases paths@.len() - i,
        {
            remove_pair(&mut self.assocs, &paths[i], tag);
            i += 1;
        }
        proof {
            lemma_removed_lift(old(self).assocs@, self.assocs@, paths@, tag@);
        }
        Ok(())
    }

    /// Attaches `tag` to every path of `paths` after resolving each to its
    /// canonical absolute form. If any path does not exist on the
    /// filesystem the whole batch fails with `PathNotFound` naming that
    /// path, and nothing is changed; otherwise the batch behaves like
    /// `add_canonical_batch` on the resolved paths.
    pub fn add_tags_batch(&mut self, paths: &Vec<String>, tag: &String) -> (r: Result<
        (),
        TagError,
    >)
        requires
            old(self).wf(),
            tag@.len() > 0,
        ensures
            final(self).wf(),
            match r {
                Ok(()) => exists|cs: Seq<Seq<char>>|
                    cs.len() == paths@.len() && rel_added(old(self)@, final(self)@, cs, tag@),
                Err(e) => final(self)@ == old(self)@ && match e {
                    TagError::PathNotFound(q) => exists|j: int|
                        0 <= j < paths@.len() && (#[trigger] paths@[j])@ == q@,
                    TagError::StorageBusy => true,
                    _ => false,
                },
            },
    {
        let mut canon: Vec<String> = Vec::new();
        let mut i: usize = 0;
        while i < paths.len()
            invariant
                0 <= i <= paths@.len(),
                self == old(self),
                old(self).wf(),
                canon@.len() == i,
            decreases paths@.len() - i,
        {
            match db::canonicalize_path(&paths[i]) {
                Some(c) => canon.push(c),
                None => return Err(TagError::PathNotFound(paths[i].clone())),
            };
            i += 1;
        }
        match self.add_canonical_batch(&canon, tag) {
            Ok(()) => {
                proof {
                    assert(str_views(canon@).len() == paths@.len());
                }
                Ok(())
            },
            Err(e) => Err(e),
        }
    }

    /// Detaches `tag` from every path of `paths`. Each path is resolved to
    /// its canonical form when possible; a path that no longer exists on
    /// the filesystem falls back to its lexical spelling, so removal by a
    /// stale path never fails — it simply removes nothing unless the
    /// spelling itself was persisted. Otherwise the batch behaves like
    /// `remove_canonical_batch` on the resolved paths.
    pub fn remove_tags_batch(&mut self, paths: &Vec<String>, tag: &String) -> (r: Result<
        (),
        TagError,
    >)
        requires
            old(self).wf(),
        ensures
            final(self).wf(),
            match r {
                Ok(()) => exists|cs: Seq<Seq<char>>|
                    cs.len() == paths@.len() && rel_removed(old(self)@, final(self)@, cs, tag@),
                Err(e) => final(self)@ == old(self)@ && e == TagError::StorageBusy,
            },
    {
        let mut canon: Vec<String> = Vec::new();
        let mut i: usize = 0;
        while i < paths.len()
            invariant
                0 <= i <= paths@.len(),
                self == old(self),
                old(self).wf(),
                canon@.len() == i,
            decreases paths@.len() - i,
        {
            match db::canonicalize_path(&paths[i]) {
                Some(c) => canon.push(c),
                None => canon.push(paths[i].clone()),
            };
            i += 1;
        }
        match self.remove_canonical_batch(&canon, tag) {
            Ok(()) => {
                proof {
                    assert(str_views(canon@).len() == paths@.len());
                }
                Ok(())
            },
            Err(e) => Err(e),
        }
    }

    /// Returns every path currently associated with exactly this tag, each
    /// once, in no promised order. A tag with no members (or one never
    /// seen) yields an empty list, not an error; reading the model cannot
    /// fail, so the result is always `Ok`.
    pub fn list_tagged(&self, tag: &String) -> (r: Result<Vec<String>, TagError>)
        requires
            self.wf(),
        ensures
            match r {
                Ok(v) => listing_of(str_views(v@), self@, tag@),
                Err(_) => false,
            },
    {
        let mut out: Vec<String> = Vec::new();
        let mut i: usize = 0;
        proof {
            lemma_assoc_rel_has(self.assocs@);
        }
        while i < self.assocs.len()
            invariant
                0 <= i <= self.assocs@.len(),
                self.wf(),
                forall|k: int|
                    0 <= k < out@.len() ==> seq_has(self.assocs@, (#[trigger] out@[k])@, tag@),
                forall|p: Seq<char>|
                    #[trigger] str_views(out@).contains(p) <==> exists|j: int|
                        0 <= j < i && (#[trigger] self.assocs@[j]).path@ == p
                            && self.assocs@[j].tag@ == tag@,
                distinct_seq(str_views(out@)),
            decreases self.assocs@.len() - i,
        {
            let a = &self.assocs[i];
            if a.tag == *tag {
                proof {
                    crate::model::lemma_str_views_contains(out@);
                    if str_views(out@).contains(a.path@) {
                        let j = choose|j: int|
                            0 <= j < i && (#[trigger] self.assocs@[j]).path@ == a.path@
                                && self.assocs@[j].tag@ == tag@;
                        assert(false);
                    }
                    crate::model::lemma_views_push(out@, a.path);
                }
                out.push(a.path.clone());
            }
            i += 1;
        }
        proof {
            lemma_assoc_rel_has(self.assocs@);
            crate::model::lemma_str_views_contains(out@);
            assert forall|k: int| 0 <= k < str_views(out@).len() implies rel_has(
                self@,
                #[trigger] str_views(out@)[k],
                tag@,
            ) by {
                assert(seq_has(self.assocs@, out@[k]@, tag@));
            }
        }
        Ok(out)
    }

    /// Answers a search: with an empty `incl` set the result is empty by
    /// policy; otherwise it holds exactly the paths that match the
    /// inclusion set under the chosen mode and carry no excluded tag, each
    /// once, in no promised order. Reading the model cannot fail, so the
    /// result is always `Ok`.
    pub fn search_tags(&self, incl: &Vec<String>, exclude: &Vec<String>, any: bool) -> (r: Result<
        Vec<String>,
        TagError,
    >)
        requires
            self.wf(),
        ensures
            match r {
                Ok(v) => search_listing_of(
                    str_views(v@),
                    self@,
                    str_views(incl@),
                    str_views(exclude@),
                    any,
                ),
                Err(_) => false,
            },
    {
        let mut out: Vec<String> = Vec::new();
        if incl.len() == 0 {
            return Ok(out);
        }
        let mut i: usize = 0;
        while i < self.assocs.len()
            invariant
                0 <= i <= self.assocs@.len(),
                self.wf(),
                forall|k: int|
                    0 <= k < out@.len() ==> search_matches(
                        self@,
                        (#[trigger] out@[k])@,
                        str_views(incl@),
                        str_views(exclude@),
                        any,
                    ),
                forall|p: Seq<char>|
                    (search_matches(self@, p, str_views(incl@), str_views(exclude@), any) && (
                    exists|j: int| 0 <= j < i && (#[trigger] self.assocs@[j]).path@ == p))
                        ==> #[trigger] str_views(out@).contains(p),
                distinct_seq(str_views(out@)),
            decreases self.assocs@.len() - i,
        {
            let a = &self.assocs[i];
            if !contains_str(&out, &a.path) {
                if matches_query(&self.assocs, &a.path, incl, exclude, any) {
                    proof {
                        crate::model::lemma_views_push(out@, a.path);
                    }
                    out.push(a.path.clone());
                }
            }
            i += 1;
        }
        proof {
            lemma_assoc_rel_has(self.assocs@);
            crate::model::lemma_str_views_contains(out@);
            assert forall|p: Seq<char>|
                search_matches(
                    self@,
                    p,
                    str_views(incl@),
                    str_views(exclude@),
                    any,
                ) implies #[trigger] str_views(out@).contains(p) by {
                if any {
                    let j = choose|j: int|
                        0 <= j < str_views(incl@).len() && rel_has(
                            self@,
                            p,
                            #[trigger] str_views(incl@)[j],
                        );
                    assert(seq_has(self.assocs@, p, str_views(incl@)[j]));
                    let w = choose|w: int|
                        0 <= w < self.assocs@.len() && (#[trigger] self.assocs@[w]).path@ == p
                            && self.assocs@[w].tag@ == str_views(incl@)[j];
                    assert(self.assocs@[w].path@ == p);
                } else {
                    assert(str_views(incl@).len() > 0);
                    assert(rel_has(self@, p, str_views(incl@)[0]));
                    assert(seq_has(self.assocs@, p, str_views(incl@)[0]));
                    let w = choose|w: int|
                        0 <= w < self.assocs@.len() && (#[trigger] self.assocs@[w]).path@ == p
                            && self.assocs@[w].tag@ == str_views(incl@)[0];
                    assert(self.assocs@[w].path@ == p);
                }
            }
        }
        Ok(out)
    }

    /// Returns every tag attached to the canonical path `path`, each once,
    /// in no promised order; a path with no tags yields an empty list.
    pub fn tags_for_canonical(&self, path: &String) -> (r: Vec<String>)
        requires
            self.wf(),
        ensures
            tag_listing_of(str_views(r@), self@, path@),
    {
        let mut out: Vec<String> = Vec::new();
        let mut i: usize = 0;
        while i < self.assocs.len()
            invariant
                0 <= i <= self.assocs@.len(),
                self.wf(),
                forall|k: int|
                    0 <= k < out@.len() ==> seq_has(self.assocs@, path@, (#[trigger] out@[k])@),
                forall|t: Seq<char>|
                    #[trigger] str_views(out@).contains(t) <==> exists|j: int|
                        0 <= j < i && (#[trigger] self.assocs@[j]).path@ == path@
                            && self.assocs@[j].tag@ == t,
                distinct_seq(str_views(out@)),
            decreases self.assocs@.len() - i,
        {
            let a = &self.assocs[i];
            if a.path == *path {
                proof {
                    crate::model::lemma_str_views_contains(out@);
                    if str_views(out@).contains(a.tag@) {
                        let j = choose|j: int|
                            0 <= j < i && (#[trigger] self.assocs@[j]).path@ == path@
                                && self.assocs@[j].tag@ == a.tag@;
                        assert(false);
                    }
                    crate::model::lemma_views_push(out@, a.tag);
                }
                out.push(a.tag.clone());
            }
            i += 1;
        }
        proof {
            lemma_assoc_rel_has(self.assocs@);
            crate::model::lemma_str_views_contains(out@);
            assert forall|k: int| 0 <= k < str_views(out@).len() implies rel_has(
                self@,
                path@,
                #[trigger] str_views(out@)[k],
            ) by {
                assert(seq_has(self.assocs@, path@, out@[k]@));
            }
        }
        out
    }

    /// Returns the tags of the path after resolving it as removal does: the
    /// canonical form when the path still exists, its lexical spelling
    /// otherwise. The lookup itself cannot fail.
    pub fn get_file_tags(&self, path: &String) -> (r: Result<Vec<String>, TagError>)
        requires
            self.wf(),
        ensures
            match r {
                Ok(v) => crate::model::some_tag_listing(str_views(v@), self@),
                Err(_) => false,
            },
    {
        let resolved = match db::canonicalize_path(path) {
            Some(c) => c,
            None => path.clone(),
        };
        let found = self.tags_for_canonical(&resolved);
        proof {
            assert(crate::model::some_tag_listing(str_views(found@), self@)) by {
                assert(tag_listing_of(str_views(found@), self@, resolved@));
            }
        }
        Ok(found)
    }
}

} // verus!
