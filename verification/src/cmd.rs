//! The command layer: one struct per subcommand, with the decision logic
//! verified against the store's model.
//!
//! Argument parsing, directory traversal, metadata inspection and printing
//! live outside the library; a command here receives plain values instead:
//! the store, the resolved candidate path list that the traversal
//! collaborator produced (the command's own `paths` field, unchanged, when
//! recursion is off), or the tag grouping the metadata heuristic produced.
use vstd::prelude::*;

use crate::TagError;
use crate::model::{
    Rel, rel_added, rel_removed, str_views, listing_of, search_listing_of,
};
use crate::store::TagStore;

verus! {

/// The parsed command line: one subcommand.
pub struct Cli {
    pub command: Commands,
}

/// The subcommands.
pub enum Commands {
    Add(Add),
    Remove(Remove),
    List(List),
    Search(Search),
    Autotag(Autotag),
}

/// Attach one tag to the given paths (recursing if asked).
pub struct Add {
    pub tag: String,
    pub paths: Vec<String>,
    pub recursive: bool,
    pub hidden: bool,
}

/// Detach one tag from the given paths (recursing if asked).
pub struct Remove {
    pub tag: String,
    pub paths: Vec<String>,
    pub recursive: bool,
    pub hidden: bool,
}

/// List the paths carrying one tag, optionally keeping only directories
/// or only files.
pub struct List {
    pub tag: String,
    pub dirs: bool,
    pub files: bool,
}

/// Search by several tags with any/all mode and exclusions, optionally
/// keeping only directories or only files.
pub struct Search {
    pub tags: Vec<String>,
    pub any: bool,
    pub dirs: bool,
    pub files: bool,
    pub exclude: Vec<String>,
}

/// Derive tags from file metadata and attach them.
pub struct Autotag {
    pub paths: Vec<String>,
    pub recursive: bool,
    pub hidden: bool,
}

/// One batch the auto-tagger asks for: a tag and the paths that earned it.
pub struct TagGroup {
    pub tag: String,
    pub paths: Vec<String>,
}

/// `post` is `pre` after applying the groups in order: each group is one
/// add batch, attaching the group's tag to the canonical forms (whatever
/// the filesystem resolved them to) of the group's paths.
pub open spec fn groups_applied(pre: Rel, post: Rel, groups: Seq<TagGroup>) -> bool
    decreases groups.len(),
{
    if groups.len() == 0 {
        post == pre
    } else {
        exists|mid: Rel, cs: Seq<Seq<char>>|
            cs.len() == groups[0].paths@.len() && #[trigger] rel_added(pre, mid, cs, groups[0].tag@)
                && groups_applied(mid, post, groups.drop_first())
    }
}

/// Some prefix of the groups has been applied: what holds after a failing
/// batch stopped the loop.
pub open spec fn some_prefix_applied(pre: Rel, post: Rel, groups: Seq<TagGroup>) -> bool {
    exists|k: int| 0 <= k <= groups.len() && groups_applied(pre, post, #[trigger] groups.take(k))
}

/// Extending an applied group sequence by one more applied batch.
proof fn lemma_groups_applied_push(
    pre: Rel,
    mid: Rel,
    post: Rel,
    gs: Seq<TagGroup>,
    g: TagGroup,
    cs: Seq<Seq<char>>,
)
    requires
        groups_applied(pre, mid, gs),
        cs.len() == g.paths@.len(),
        rel_added(mid, post, cs, g.tag@),
    ensures
        groups_applied(pre, post, gs.push(g)),
    decreases gs.len(),
{
    assert(gs.push(g)[0] == if gs.len() == 0 {
        g
    } else {
        gs[0]
    });
    if gs.len() == 0 {
        assert(mid == pre);
        assert(gs.push(g).drop_first() =~= Seq::<TagGroup>::empty());
        assert(groups_applied(post, post, gs.push(g).drop_first()));
        assert(rel_added(pre, post, cs, gs.push(g)[0].tag@));
    } else {
        let (m1, c1): (Rel, Seq<Seq<char>>) = choose|m1: Rel, c1: Seq<Seq<char>>|
            c1.len() == gs[0].paths@.len() && #[trigger] rel_added(pre, m1, c1, gs[0].tag@)
                && groups_applied(m1, mid, gs.drop_first());
        lemma_groups_applied_push(m1, mid, post, gs.drop_first(), g, cs);
        assert(gs.push(g).drop_first() =~= gs.drop_first().push(g));
        assert(rel_added(pre, m1, c1, gs.push(g)[0].tag@));
        assert(groups_applied(m1, post, gs.push(g).drop_first()));
    }
}

impl Add {
    /// Attaches `self.tag` to every path of `resolved`, the candidate list
    /// produced from `self.paths` by the traversal collaborator, as one
    /// all-or-nothing batch.
    pub fn run(&self, store: &mut TagStore, resolved: &Vec<String>) -> (r: Result<(), TagError>)
        requires
            old(store).wf(),
            self.tag@.len() > 0,
        ensures
            final(store).wf(),
            match r {
                Ok(()) => exists|cs: Seq<Seq<char>>|
                    cs.len() == resolved@.len() && rel_added(
                        old(store)@,
                        final(store)@,
                        cs,
                        self.tag@,
                    ),
                Err(e) => final(store)@ == old(store)@ && match e {
                    TagError::PathNotFound(q) => exists|j: int|
                        0 <= j < resolved@.len() && (#[trigger] resolved@[j])@ == q@,
                    TagError::StorageBusy => true,
                    _ => false,
                },
            },
    {
        store.add_tags_batch(resolved, &self.tag)
    }
}

impl Remove {
    /// Detaches `self.tag` from every path of `resolved`, the candidate
    /// list produced from `self.paths` by the traversal collaborator, as
    /// one batch; never-tagged or vanished paths are not an error.
    pub fn run(&self, store: &mut TagStore, resolved: &Vec<String>) -> (r: Result<(), TagError>)
        requires
            old(store).wf(),
        ensures
            final(store).wf(),
            match r {
                Ok(()) => exists|cs: Seq<Seq<char>>|
                    cs.len() == resolved@.len() && rel_removed(
                        old(store)@,
                        final(store)@,
                        cs,
                        self.tag@,
                    ),
                Err(e) => final(store)@ == old(store)@ && e == TagError::StorageBusy,
            },
    {
        store.remove_tags_batch(resolved, &self.tag)
    }
}

impl List {
    /// Lists the paths carrying `self.tag`. Asking for directories only
    /// and files only at once is rejected before the store is consulted;
    /// the kind filter itself needs the filesystem, so the caller applies
    /// it to the returned canonical paths.
    pub fn run(&self, store: &TagStore) -> (r: Result<Vec<String>, TagError>)
        requires
            store.wf(),
        ensures
            match r {
                Ok(v) => !(self.dirs && self.files) && listing_of(
                    str_views(v@),
                    store@,
                    self.tag@,
                ),
                Err(e) => e == TagError::FilterConflict && self.dirs && self.files,
            },
    {
        if self.dirs && self.files {
            return Err(TagError::FilterConflict);
        }
        store.list_tagged(&self.tag)
    }
}

impl Search {
    /// Searches by `self.tags` under the chosen mode, minus `self.exclude`.
    /// Asking for directories only and files only at once is rejected
    /// before the store is consulted, as for `List`.
    pub fn run(&self, store: &TagStore) -> (r: Result<Vec<String>, TagError>)
        requires
            store.wf(),
        ensures
            match r {
                Ok(v) => !(self.dirs && self.files) && search_listing_of(
                    str_views(v@),
                    store@,
                    str_views(self.tags@),
                    str_views(self.exclude@),
                    self.any,
                ),
                Err(e) => e == TagError::FilterConflict && self.dirs && self.files,
            },
    {
        if self.dirs && self.files {
            return Err(TagError::FilterConflict);
        }
        store.search_tags(&self.tags, &self.exclude, self.any)
    }
}

impl Autotag {
    /// Applies the grouping the metadata heuristic produced from
    /// `self.paths`: one add batch per group, in order. Each batch is the
    /// atomic unit — a failing batch stops the loop with its error and the
    /// batches already applied stay committed, as when the batches are
    /// issued one by one.
    pub fn run(&self, store: &mut TagStore, groups: &Vec<TagGroup>) -> (r: Result<(), TagError>)
        requires
            old(store).wf(),
            forall|i: int| 0 <= i < groups@.len() ==> (#[trigger] groups@[i]).tag@.len() > 0,
        ensures
            final(store).wf(),
            match r {
                Ok(()) => groups_applied(old(store)@, final(store)@, groups@),
                Err(e) => some_prefix_applied(old(store)@, final(store)@, groups@) && match e {
                    TagError::PathNotFound(_) => true,
                    TagError::StorageBusy => true,
                    _ => false,
                },
            },
    {
        let mut i: usize = 0;
        proof {
            assert(groups@.take(0) =~= Seq::<TagGroup>::empty());
        }
        while i < groups.len()
            invariant
                0 <= i <= groups@.len(),
                store.wf(),
                forall|k: int| 0 <= k < groups@.len() ==> (#[trigger] groups@[k]).tag@.len() > 0,
                groups_applied(old(store)@, store@, groups@.take(i as int)),
            decreases groups@.len() - i,
        {
            let g = &groups[i];
            let ghost pre_rel = store@;
            let ghost done = groups@.take(i as int);
            match store.add_tags_batch(&g.paths, &g.tag) {
                Ok(()) => {
                    proof {
                        let cs = choose|cs: Seq<Seq<char>>|
                            cs.len() == g.paths@.len() && rel_added(pre_rel, store@, cs, g.tag@);
                        lemma_groups_applied_push(
                            old(store)@,
                            pre_rel,
                            store@,
                            done,
                            groups@[i as int],
                            cs,
                        );
                        assert(done.push(groups@[i as int]) =~= groups@.take(i + 1 as int));
                    }
                },
                Err(e) => {
                    proof {
                        assert(groups_applied(old(store)@, store@, groups@.take(i as int)));
                    }
                    return Err(e);
                },
            }
            i += 1;
        }
        proof {
            assert(groups@.take(groups@.len() as int) =~= groups@);
        }
        Ok(())
    }
}

/// What a command needs from its surroundings: the mutations and listings
/// take the traversal's resolved path list, the auto-tagger takes the
/// grouping the metadata heuristic produced.
pub enum CommandInput {
    Resolved(Vec<String>),
    Grouped(Vec<TagGroup>),
}

/// Dispatch for a parsed command: run it against the store with the input
/// its collaborators prepared, returning the paths to print (empty for
/// mutations).
pub trait Run {
    /// The input matches what the command consumes.
    spec fn input_ok(&self, input: &CommandInput) -> bool;

    /// What running the command means: how the store's relation changed
    /// and what the returned paths are.
    spec fn run_ok(
        &self,
        pre: Rel,
        post: Rel,
        input: &CommandInput,
        r: Result<Vec<String>, TagError>,
    ) -> bool;

    /// Runs the command.
    fn run(&self, store: &mut TagStore, input: &CommandInput) -> (r: Result<Vec<String>, TagError>)
        requires
            old(store).wf(),
            self.input_ok(input),
        ensures
            final(store).wf(),
            self.run_ok(old(store)@, final(store)@, input, r),
    ;
}

impl Run for Commands {
    open spec fn input_ok(&self, input: &CommandInput) -> bool {
        match self {
            Commands::Add(c) => c.tag@.len() > 0 && input is Resolved,
            Commands::Remove(_) => input is Resolved,
            Commands::List(_) => true,
            Commands::Search(_) => true,
            Commands::Autotag(_) => match input {
                CommandInput::Grouped(groups) => forall|i: int|
                    0 <= i < groups@.len() ==> (#[trigger] groups@[i]).tag@.len() > 0,
                CommandInput::Resolved(_) => false,
            },
        }
    }

    /// Each subcommand keeps the contract of its own `run`; the mutations
    /// return no paths to print, the queries leave the store unchanged and
    /// return their listing.
    open spec fn run_ok(
        &self,
        pre: Rel,
        post: Rel,
        input: &CommandInput,
        r: Result<Vec<String>, TagError>,
    ) -> bool {
        match self {
            Commands::Add(c) => match input {
                CommandInput::Resolved(paths) => match r {
                    Ok(v) => v@.len() == 0 && exists|cs: Seq<Seq<char>>|
                        cs.len() == paths@.len() && rel_added(pre, post, cs, c.tag@),
                    Err(e) => post == pre && match e {
                        TagError::PathNotFound(q) => exists|j: int|
                            0 <= j < paths@.len() && (#[trigger] paths@[j])@ == q@,
                        TagError::StorageBusy => true,
                        _ => false,
                    },
                },
                CommandInput::Grouped(_) => true,
            },
            Commands::Remove(c) => match input {
                CommandInput::Resolved(paths) => match r {
                    Ok(v) => v@.len() == 0 && exists|cs: Seq<Seq<char>>|
                        cs.len() == paths@.len() && rel_removed(pre, post, cs, c.tag@),
                    Err(e) => post == pre && e == TagError::StorageBusy,
                },
                CommandInput::Grouped(_) => true,
            },
            Commands::List(c) => post == pre && match r {
                Ok(v) => !(c.dirs && c.files) && listing_of(str_views(v@), post, c.tag@),
                Err(e) => e == TagError::FilterConflict && c.dirs && c.files,
            },
            Commands::Search(c) => post == pre && match r {
                Ok(v) => !(c.dirs && c.files) && search_listing_of(
                    str_views(v@),
                    post,
                    str_views(c.tags@),
                    str_views(c.exclude@),
                    c.any,
                ),
                Err(e) => e == TagError::FilterConflict && c.dirs && c.files,
            },
            Commands::Autotag(_) => match input {
                CommandInput::Grouped(groups) => match r {
                    Ok(v) => v@.len() == 0 && groups_applied(pre, post, groups@),
                    Err(e) => some_prefix_applied(pre, post, groups@) && match e {
                        TagError::PathNotFound(_) => true,
                        TagError::StorageBusy => true,
                        _ => false,
                    },
                },
                CommandInput::Resolved(_) => true,
            },
        }
    }

    fn run(&self, store: &mut TagStore, input: &CommandInput) -> (r: Result<Vec<String>, TagError>)
    {
        match self {
            Commands::Add(c) => match input {
                CommandInput::Resolved(paths) => match c.run(store, paths) {
                    Ok(()) => Ok(Vec::new()),
                    Err(e) => Err(e),
                },
                CommandInput::Grouped(_) => vstd::pervasive::unreached(),
            },
            Commands::Remove(c) => match input {
                CommandInput::Resolved(paths) => match c.run(store, paths) {
                    Ok(()) => Ok(Vec::new()),
                    Err(e) => Err(e),
                },
                CommandInput::Grouped(_) => vstd::pervasive::unreached(),
            },
            Commands::List(c) => c.run(store),
            Commands::Search(c) => c.run(store),
            Commands::Autotag(c) => match input {
                CommandInput::Grouped(groups) => match c.run(store, groups) {
                    Ok(()) => Ok(Vec::new()),
                    Err(e) => Err(e),
                },
                CommandInput::Resolved(_) => vstd::pervasive::unreached(),
            },
        }
    }
}

} // verus!
