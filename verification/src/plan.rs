//! The clone orchestrator: precondition validation and the per-entry
//! copy plan.
//!
//! `clone_tree` is a pure function from the observed state of the world
//! (does the source exist, is it a directory, does the destination
//! exist, which entries the walk yielded) and the configuration to
//! either an error or a plan. The caller stats the two roots, walks the
//! source, and then executes the plan: create the destination root if
//! asked, and for each action create the named parent directory (with
//! its ancestors) if asked, then copy the file's bytes, removing a
//! pre-existing destination file first when merging.

use vstd::prelude::*;
use crate::error::Error;
use crate::filter::{
    all_globs_valid, is_first_invalid_glob_error, spec_excludes, spec_included, spec_includes,
    Filter,
};
use crate::options::Options;
use crate::paths::{parent_of, spec_parent};

verus! {

/// One entry the walk yielded: its path relative to the source root,
/// and whether it is a regular file (directories and other entries are
/// never copied).
pub struct Entry {
    pub rel_path: String,
    pub is_file: bool,
}

/// The view of an entry.
#[verifier::ext_equal]
pub struct EntryView {
    pub rel_path: Seq<char>,
    pub is_file: bool,
}

impl View for Entry {
    type V = EntryView;

    open spec fn view(&self) -> EntryView {
        EntryView { rel_path: self.rel_path@, is_file: self.is_file }
    }
}

/// One planned copy: the relative path to copy, and the
/// destination-relative directory to materialize (ancestors included)
/// before copying, where an earlier action has not already done so.
pub struct CopyAction {
    pub rel_path: String,
    pub create_parent: Option<String>,
}

/// The view of a copy action.
#[verifier::ext_equal]
pub struct ActionView {
    pub rel_path: Seq<char>,
    pub create_parent: Option<Seq<char>>,
}

impl View for CopyAction {
    type V = ActionView;

    open spec fn view(&self) -> ActionView {
        ActionView {
            rel_path: self.rel_path@,
            create_parent: match self.create_parent {
                Some(ref d) => Some(d@),
                None => None,
            },
        }
    }
}

/// The outcome of a successful validation and walk: what the executing
/// caller has to do.
pub struct Plan {
    /// Create the destination root (with its ancestors) before anything
    /// else: set exactly when the destination did not exist.
    pub create_dest_root: bool,
    /// Before each copy, remove a pre-existing destination file: set
    /// exactly when overwrite was requested.
    pub remove_existing: bool,
    /// Attempt a copy-on-write clone before falling back to a byte
    /// copy: set exactly when the reflink attempt was not disabled.
    pub use_reflink: bool,
    /// The copies to perform, in walk order.
    pub actions: Vec<CopyAction>,
}

/// The views of a walk listing.
pub open spec fn entry_views(entries: Seq<Entry>) -> Seq<EntryView> {
    entries.map_values(|e: Entry| e@)
}

/// The views of a plan's actions.
pub open spec fn action_views(actions: Seq<CopyAction>) -> Seq<ActionView> {
    actions.map_values(|a: CopyAction| a@)
}

/// The planned copy actions for a walk listing: one action per included
/// file entry, in order, whose `create_parent` names the file's parent
/// directory exactly when the entry is the first included file under
/// that parent (`created` carries the parents named so far).
pub open spec fn spec_actions(
    entries: Seq<EntryView>,
    includes: Seq<Seq<char>>,
    excludes: Seq<Seq<char>>,
    created: Set<Seq<char>>,
) -> Seq<ActionView>
    decreases entries.len(),
{
    if entries.len() == 0 {
        Seq::empty()
    } else {
        let e = entries[0];
        let rest = entries.drop_first();
        if e.is_file && spec_included(includes, excludes, e.rel_path, false) {
            match spec_parent(e.rel_path) {
                Some(d) => {
                    if created.contains(d) {
                        seq![ActionView { rel_path: e.rel_path, create_parent: None }]
                            + spec_actions(rest, includes, excludes, created)
                    } else {
                        seq![ActionView { rel_path: e.rel_path, create_parent: Some(d) }]
                            + spec_actions(rest, includes, excludes, created.insert(d))
                    }
                },
                None => seq![ActionView { rel_path: e.rel_path, create_parent: None }]
                    + spec_actions(rest, includes, excludes, created),
            }
        } else {
            spec_actions(rest, includes, excludes, created)
        }
    }
}

/// Check the preconditions of a clone, before any mutation: the source
/// must exist and be a directory, and the destination may pre-exist
/// only when overwrite was requested. On success, tells whether the
/// destination root still has to be created.
pub fn validate(
    src_exists: bool,
    src_is_dir: bool,
    dest_exists: bool,
    overwrite: bool,
    src: &str,
    dest: &str,
) -> (r: Result<bool, Error>)
    ensures
        r is Ok <==> src_exists && src_is_dir && (!dest_exists || overwrite),
        r is Ok ==> r->Ok_0 == !dest_exists,
        !src_exists ==> (r matches Err(Error::SourceNotFound { path }) && path@ == src@),
        src_exists && !src_is_dir ==> (r matches Err(Error::SourceNotDirectory { path })
            && path@ == src@),
        src_exists && src_is_dir && dest_exists && !overwrite ==> (r matches Err(
            Error::DestinationExists { path },
        ) && path@ == dest@),
{
    if !src_exists {
        return Err(Error::SourceNotFound { path: String::from_str(src) });
    }
    if !src_is_dir {
        return Err(Error::SourceNotDirectory { path: String::from_str(src) });
    }
    if dest_exists && !overwrite {
        return Err(Error::DestinationExists { path: String::from_str(dest) });
    }
    Ok(!dest_exists)
}

/// The set of strings a vector holds, as views.
pub open spec fn string_views(v: Seq<String>) -> Set<Seq<char>> {
    Set::new(|s: Seq<char>| exists|j: int| 0 <= j < v.len() && v[j]@ == s)
}

proof fn lemma_string_views_push(v: Seq<String>, x: String)
    ensures
        string_views(v.push(x)) == string_views(v).insert(x@),
{
    assert forall|s: Seq<char>| string_views(v.push(x)).contains(s) implies string_views(
        v,
    ).insert(x@).contains(s) by {
        let j = choose|j: int| 0 <= j < v.push(x).len() && v.push(x)[j]@ == s;
        if j < v.len() {
            assert(v[j]@ == s);
        } else {
            assert(s == x@);
        }
    }
    assert forall|s: Seq<char>| string_views(v).insert(x@).contains(s) implies string_views(
        v.push(x),
    ).contains(s) by {
        if s == x@ {
            assert(v.push(x)[v.len() as int]@ == s);
        } else {
            let j = choose|j: int| 0 <= j < v.len() && v[j]@ == s;
            assert(v.push(x)[j]@ == s);
        }
    }
    assert(string_views(v.push(x)) =~= string_views(v).insert(x@));
}

/// Whether the vector holds the given string.
fn contains_str(v: &Vec<String>, d: &String) -> (r: bool)
    ensures
        r == string_views(v@).contains(d@),
{
    let mut i: usize = 0;
    while i < v.len()
        invariant
            0 <= i <= v@.len(),
            forall|k: int| 0 <= k < i ==> v@[k]@ != d@,
        decreases v@.len() - i,
    {
        if v[i].eq(d) {
            return true;
        }
        i += 1;
    }
    false
}

/// The relative paths of a walk listing's file entries, in order.
pub open spec fn spec_file_paths(entries: Seq<EntryView>) -> Seq<Seq<char>>
    decreases entries.len(),
{
    if entries.len() == 0 {
        Seq::empty()
    } else if entries[0].is_file {
        seq![entries[0].rel_path] + spec_file_paths(entries.drop_first())
    } else {
        spec_file_paths(entries.drop_first())
    }
}

/// The relative paths a plan's actions copy, in order.
pub open spec fn spec_action_paths(actions: Seq<ActionView>) -> Seq<Seq<char>> {
    actions.map_values(|a: ActionView| a.rel_path)
}

/// Full fidelity: with no configured patterns, the planned copies are
/// exactly the file entries of the walk listing, in order — every file
/// of the source is copied to its own relative path.
pub proof fn lemma_full_fidelity(entries: Seq<EntryView>, created: Set<Seq<char>>)
    ensures
        spec_action_paths(spec_actions(entries, Seq::empty(), Seq::empty(), created))
            == spec_file_paths(entries),
    decreases entries.len(),
{
    let inc = Seq::<Seq<char>>::empty();
    let exc = Seq::<Seq<char>>::empty();
    if entries.len() == 0 {
        assert(spec_action_paths(spec_actions(entries, inc, exc, created)) =~= spec_file_paths(
            entries,
        ));
    } else {
        let e = entries[0];
        let rest = entries.drop_first();
        assert(spec_included(inc, exc, e.rel_path, false));
        if e.is_file {
            match spec_parent(e.rel_path) {
                Some(d) => {
                    if created.contains(d) {
                        lemma_full_fidelity(rest, created);
                    } else {
                        lemma_full_fidelity(rest, created.insert(d));
                    }
                },
                None => {
                    lemma_full_fidelity(rest, created);
                },
            }
            assert(spec_action_paths(spec_actions(entries, inc, exc, created)) =~= spec_file_paths(
                entries,
            ));
        } else {
            lemma_full_fidelity(rest, created);
            assert(spec_file_paths(entries) == spec_file_paths(rest));
        }
    }
}

/// A merge touches only mirrored paths: every planned copy names the
/// relative path of some included file entry of the walk listing, so a
/// destination file that mirrors no source file is never written.
pub proof fn lemma_actions_only_source_files(
    entries: Seq<EntryView>,
    includes: Seq<Seq<char>>,
    excludes: Seq<Seq<char>>,
    created: Set<Seq<char>>,
    k: int,
)
    requires
        0 <= k < spec_actions(entries, includes, excludes, created).len(),
    ensures
        exists|j: int|
            {
                &&& 0 <= j < entries.len()
                &&& (#[trigger] entries[j]).is_file
                &&& entries[j].rel_path == spec_actions(entries, includes, excludes, created)[k]
                    .rel_path
                &&& spec_included(includes, excludes, entries[j].rel_path, false)
            },
    decreases entries.len(),
{
    let acts = spec_actions(entries, includes, excludes, created);
    let e = entries[0];
    let rest = entries.drop_first();
    if e.is_file && spec_included(includes, excludes, e.rel_path, false) {
        if k == 0 {
            assert(acts[0].rel_path == e.rel_path);
            assert(entries[0].is_file);
        } else {
            let created2 = match spec_parent(e.rel_path) {
                Some(d) => if created.contains(d) {
                    created
                } else {
                    created.insert(d)
                },
                None => created,
            };
            lemma_actions_only_source_files(rest, includes, excludes, created2, k - 1);
            let j = choose|j: int|
                {
                    &&& 0 <= j < rest.len()
                    &&& (#[trigger] rest[j]).is_file
                    &&& rest[j].rel_path == spec_actions(rest, includes, excludes, created2)[k - 1]
                        .rel_path
                    &&& spec_included(includes, excludes, rest[j].rel_path, false)
                };
            assert(entries[j + 1] == rest[j]);
            assert(acts[k] == spec_actions(rest, includes, excludes, created2)[k - 1]);
        }
    } else {
        lemma_actions_only_source_files(rest, includes, excludes, created, k);
        let j = choose|j: int|
            {
                &&& 0 <= j < rest.len()
                &&& (#[trigger] rest[j]).is_file
                &&& rest[j].rel_path == spec_actions(rest, includes, excludes, created)[k].rel_path
                &&& spec_included(includes, excludes, rest[j].rel_path, false)
            };
        assert(entries[j + 1] == rest[j]);
    }
}

/// Whether the parent directory of the `k`-th planned copy is in hand
/// by the time it runs: already present when the plan started, or named
/// for creation by an action no later than the `k`-th.
pub open spec fn parent_materialized(
    acts: Seq<ActionView>,
    created: Set<Seq<char>>,
    k: int,
) -> bool {
    match spec_parent(acts[k].rel_path) {
        Some(d) => created.contains(d) || exists|k2: int|
            0 <= k2 <= k && (#[trigger] acts[k2]).create_parent == Some(d),
        None => true,
    }
}

/// The created-directory bookkeeping is only an optimization, never a
/// correctness requirement: every planned copy's parent directory either
/// existed when the plan started (`created`) or is named for creation by
/// that action or an earlier one, so executing the actions in order
/// always copies into an existing directory.
pub proof fn lemma_parent_always_materialized(
    entries: Seq<EntryView>,
    includes: Seq<Seq<char>>,
    excludes: Seq<Seq<char>>,
    created: Set<Seq<char>>,
    k: int,
)
    requires
        0 <= k < spec_actions(entries, includes, excludes, created).len(),
    ensures
        parent_materialized(spec_actions(entries, includes, excludes, created), created, k),
    decreases entries.len(),
{
    let acts = spec_actions(entries, includes, excludes, created);
    let e = entries[0];
    let rest = entries.drop_first();
    if e.is_file && spec_included(includes, excludes, e.rel_path, false) {
        match spec_parent(e.rel_path) {
            Some(d0) => {
                let created2 = if created.contains(d0) {
                    created
                } else {
                    created.insert(d0)
                };
                let rest_acts = spec_actions(rest, includes, excludes, created2);
                if k == 0 {
                    if !created.contains(d0) {
                        assert(acts[0].create_parent == Some(d0));
                    }
                } else {
                    lemma_parent_always_materialized(rest, includes, excludes, created2, k - 1);
                    assert(acts[k] == rest_acts[k - 1]);
                    match spec_parent(rest_acts[k - 1].rel_path) {
                        Some(dk) => {
                            if created2.contains(dk) {
                                if !created.contains(dk) {
                                    assert(dk == d0);
                                    assert(acts[0].create_parent == Some(d0));
                                }
                            } else {
                                let k2 = choose|k2: int|
                                    0 <= k2 <= k - 1 && (#[trigger] rest_acts[k2]).create_parent
                                        == Some(dk);
                                assert(acts[k2 + 1] == rest_acts[k2]);
                            }
                        },
                        None => {},
                    }
                }
            },
            None => {
                let rest_acts = spec_actions(rest, includes, excludes, created);
                if k == 0 {
                } else {
                    lemma_parent_always_materialized(rest, includes, excludes, created, k - 1);
                    assert(acts[k] == rest_acts[k - 1]);
                    match spec_parent(rest_acts[k - 1].rel_path) {
                        Some(dk) => {
                            if !created.contains(dk) {
                                let k2 = choose|k2: int|
                                    0 <= k2 <= k - 1 && (#[trigger] rest_acts[k2]).create_parent
                                        == Some(dk);
                                assert(acts[k2 + 1] == rest_acts[k2]);
                            }
                        },
                        None => {},
                    }
                }
            },
        }
    } else {
        lemma_parent_always_materialized(rest, includes, excludes, created, k);
    }
}

/// No directory is materialized for its own sake: a planned directory
/// creation always names the parent of the very file that action
/// copies, and one that the plan did not already know to exist — so a
/// source directory containing no included file is never created.
pub proof fn lemma_created_dir_is_a_parent(
    entries: Seq<EntryView>,
    includes: Seq<Seq<char>>,
    excludes: Seq<Seq<char>>,
    created: Set<Seq<char>>,
    k: int,
)
    requires
        0 <= k < spec_actions(entries, includes, excludes, created).len(),
        spec_actions(entries, includes, excludes, created)[k].create_parent is Some,
    ensures
        spec_actions(entries, includes, excludes, created)[k].create_parent == spec_parent(
            spec_actions(entries, includes, excludes, created)[k].rel_path,
        ),
        !created.contains(
            spec_actions(entries, includes, excludes, created)[k].create_parent->Some_0,
        ),
    decreases entries.len(),
{
    let acts = spec_actions(entries, includes, excludes, created);
    let e = entries[0];
    let rest = entries.drop_first();
    if e.is_file && spec_included(includes, excludes, e.rel_path, false) {
        match spec_parent(e.rel_path) {
            Some(d0) => {
                let created2 = if created.contains(d0) {
                    created
                } else {
                    created.insert(d0)
                };
                let rest_acts = spec_actions(rest, includes, excludes, created2);
                if k > 0 {
                    lemma_created_dir_is_a_parent(rest, includes, excludes, created2, k - 1);
                    assert(acts[k] == rest_acts[k - 1]);
                }
            },
            None => {
                let rest_acts = spec_actions(rest, includes, excludes, created);
                if k > 0 {
                    lemma_created_dir_is_a_parent(rest, includes, excludes, created, k - 1);
                    assert(acts[k] == rest_acts[k - 1]);
                }
            },
        }
    } else {
        lemma_created_dir_is_a_parent(rest, includes, excludes, created, k);
    }
}

/// Which files are copied, and from where, depends on the walk listing
/// and the patterns alone: two configurations that agree on their
/// patterns plan the same actions, whatever their `overwrite` and
/// `no_reflink` flags and whatever the destination already holds. Hence
/// a clone with the reflink attempt disabled copies the same files as
/// one with it enabled, and a repeated clone over an unchanged source
/// plans the same copies as the first.
pub proof fn lemma_copies_independent_of_flags(
    entries: Seq<EntryView>,
    o1: Options,
    o2: Options,
)
    requires
        o1.globs_view() == o2.globs_view(),
    ensures
        spec_actions(
            entries,
            spec_includes(o1.globs_view()),
            spec_excludes(o1.globs_view()),
            Set::empty(),
        ) == spec_actions(
            entries,
            spec_includes(o2.globs_view()),
            spec_excludes(o2.globs_view()),
            Set::empty(),
        ),
{
}

/// The whole decision side of one clone operation, composed as
/// validate, then pattern compilation, then one pass over the walk
/// listing. Fails exactly as validation and pattern compilation say;
/// on success the plan's flags follow the configuration and its actions
/// are `spec_actions` of the listing.
pub fn clone_tree(
    src_exists: bool,
    src_is_dir: bool,
    dest_exists: bool,
    entries: &Vec<Entry>,
    options: &Options,
    src: &str,
    dest: &str,
) -> (r: Result<Plan, Error>)
    ensures
        r is Ok <==> (src_exists && src_is_dir && (!dest_exists || options.overwrite)
            && all_globs_valid(options.globs_view())),
        !src_exists ==> (r matches Err(Error::SourceNotFound { path }) && path@ == src@),
        src_exists && !src_is_dir ==> (r matches Err(Error::SourceNotDirectory { path }) && path@
            == src@),
        src_exists && src_is_dir && dest_exists && !options.overwrite ==> (r matches Err(
            Error::DestinationExists { path },
        ) && path@ == dest@),
        src_exists && src_is_dir && (!dest_exists || options.overwrite) && !all_globs_valid(
            options.globs_view(),
        ) ==> r is Err && is_first_invalid_glob_error(options.globs_view(), r->Err_0),
        r is Ok ==> r->Ok_0.create_dest_root == !dest_exists,
        r is Ok ==> r->Ok_0.remove_existing == options.overwrite,
        r is Ok ==> r->Ok_0.use_reflink == !options.no_reflink,
        r is Ok ==> action_views(r->Ok_0.actions@) == spec_actions(
            entry_views(entries@),
            spec_includes(options.globs_view()),
            spec_excludes(options.globs_view()),
            Set::empty(),
        ),
{
    let create_dest_root = match validate(
        src_exists,
        src_is_dir,
        dest_exists,
        options.overwrite,
        src,
        dest,
    ) {
        Ok(b) => b,
        Err(e) => {
            return Err(e);
        },
    };
    let filter = match Filter::build(&options.globs) {
        Ok(f) => f,
        Err(e) => {
            return Err(e);
        },
    };
    let ghost evs = entry_views(entries@);
    let ghost inc = spec_includes(options.globs_view());
    let ghost exc = spec_excludes(options.globs_view());
    let mut actions: Vec<CopyAction> = Vec::new();
    let mut created: Vec<String> = Vec::new();
    let mut i: usize = 0;
    proof {
        assert(evs.subrange(0, evs.len() as int) =~= evs);
        assert(string_views(created@) =~= Set::<Seq<char>>::empty());
        assert(action_views(actions@) =~= Seq::<ActionView>::empty());
        assert(Seq::<ActionView>::empty() + spec_actions(evs, inc, exc, Set::empty())
            =~= spec_actions(evs, inc, exc, Set::empty()));
    }
    while i < entries.len()
        invariant
            0 <= i <= entries@.len(),
            evs == entry_views(entries@),
            inc == filter.includes_view(),
            exc == filter.excludes_view(),
            action_views(actions@) + spec_actions(
                evs.subrange(i as int, evs.len() as int),
                inc,
                exc,
                string_views(created@),
            ) == spec_actions(evs, inc, exc, Set::empty()),
        decreases entries@.len() - i,
    {
        let ghost pre_suffix = evs.subrange(i as int, evs.len() as int);
        let ghost post_suffix = evs.subrange(i as int + 1, evs.len() as int);
        proof {
            assert(pre_suffix[0] == evs[i as int]);
            assert(pre_suffix.drop_first() =~= post_suffix);
            assert(evs[i as int] == entries@[i as int]@);
        }
        let e = &entries[i];
        if e.is_file && filter.included(e.rel_path.as_str(), false) {
            let parent = parent_of(e.rel_path.as_str());
            let ghost old_created = created@;
            let cp: Option<String> = match parent {
                Some(d) => {
                    if contains_str(&created, &d) {
                        None
                    } else {
                        let dc = d.clone();
                        proof {
                            lemma_string_views_push(created@, dc);
                        }
                        created.push(dc);
                        Some(d)
                    }
                },
                None => None,
            };
            let ghost old_actions = actions@;
            let action = CopyAction { rel_path: e.rel_path.clone(), create_parent: cp };
            let ghost av = action@;
            actions.push(action);
            proof {
                assert(spec_actions(pre_suffix, inc, exc, string_views(old_created)) == seq![av]
                    + spec_actions(post_suffix, inc, exc, string_views(created@)));
                assert(action_views(actions@) =~= action_views(old_actions).push(av));
                assert(action_views(old_actions) + (seq![av] + spec_actions(
                    post_suffix,
                    inc,
                    exc,
                    string_views(created@),
                )) =~= action_views(actions@) + spec_actions(
                    post_suffix,
                    inc,
                    exc,
                    string_views(created@),
                ));
            }
        } else {
            proof {
                assert(spec_actions(pre_suffix, inc, exc, string_views(created@)) == spec_actions(
                    post_suffix,
                    inc,
                    exc,
                    string_views(created@),
                ));
            }
        }
        i += 1;
    }
    proof {
        assert(evs.subrange(evs.len() as int, evs.len() as int) =~= Seq::<EntryView>::empty());
        assert(action_views(actions@) + Seq::<ActionView>::empty() =~= action_views(actions@));
    }
    Ok(Plan {
        create_dest_root,
        remove_existing: options.overwrite,
        use_reflink: !options.no_reflink,
        actions,
    })
}

} // verus!
