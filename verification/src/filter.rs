//! The include/exclude filter: classification of configured patterns and
//! the inclusion decision for one relative path.
//!
//! A pattern starting with `!` is an exclude pattern (the marker is
//! stripped before compiling); every other pattern is an include pattern.
//! A path passes the positive test when there are no include patterns, or
//! the path or one of its ancestor directories matches some include
//! pattern. It passes the negative test when neither it nor any ancestor
//! directory matches any exclude pattern. It is included exactly when it
//! passes both, so an exclude always prunes a subtree, whatever the
//! include patterns say.

use vstd::prelude::*;
use crate::error::Error;
use crate::glob::{glob_match, glob_valid, GlobPattern};
use crate::options::views_of;

verus! {

/// Whether a configured pattern carries the exclude marker.
pub open spec fn is_exclude_pattern(p: Seq<char>) -> bool {
    p.len() > 0 && p[0] == '!'
}

/// The pattern with its exclude marker stripped.
pub open spec fn exclude_body(p: Seq<char>) -> Seq<char> {
    p.subrange(1, p.len() as int)
}

/// The glob actually compiled for a configured pattern: the pattern
/// itself for an include, the marker-stripped body for an exclude.
pub open spec fn effective_pattern(p: Seq<char>) -> Seq<char> {
    if is_exclude_pattern(p) {
        exclude_body(p)
    } else {
        p
    }
}

/// The include patterns among a configured list, in order.
pub open spec fn spec_includes(globs: Seq<Seq<char>>) -> Seq<Seq<char>>
    decreases globs.len(),
{
    if globs.len() == 0 {
        Seq::empty()
    } else {
        let rest = spec_includes(globs.drop_last());
        if !is_exclude_pattern(globs.last()) {
            rest.push(globs.last())
        } else {
            rest
        }
    }
}

/// The exclude patterns among a configured list, in order, with their
/// markers stripped.
pub open spec fn spec_excludes(globs: Seq<Seq<char>>) -> Seq<Seq<char>>
    decreases globs.len(),
{
    if globs.len() == 0 {
        Seq::empty()
    } else {
        let rest = spec_excludes(globs.drop_last());
        if is_exclude_pattern(globs.last()) {
            rest.push(exclude_body(globs.last()))
        } else {
            rest
        }
    }
}

/// Whether every configured pattern compiles.
pub open spec fn all_globs_valid(globs: Seq<Seq<char>>) -> bool {
    forall|i: int| 0 <= i < globs.len() ==> glob_valid(effective_pattern(#[trigger] globs[i]))
}

/// Whether `e` reports the first pattern of the list that does not
/// compile, as it was configured (exclude marker included).
pub open spec fn is_first_invalid_glob_error(globs: Seq<Seq<char>>, e: Error) -> bool {
    exists|i: int|
        {
            &&& 0 <= i < globs.len()
            &&& !glob_valid(effective_pattern(#[trigger] globs[i]))
            &&& forall|k: int| 0 <= k < i ==> glob_valid(effective_pattern(#[trigger] globs[k]))
            &&& e matches Error::InvalidGlob { pattern, cause } && pattern@ == globs[i]
        }
}

/// Whether `pattern` matches `path` itself, or matches (as a directory)
/// one of the ancestor directories of `path` — the prefixes of `path`
/// that end just before a `/`.
pub open spec fn matches_self_or_ancestor(pattern: Seq<char>, path: Seq<char>, is_dir: bool) -> bool {
    ||| glob_match(pattern, path, is_dir)
    ||| exists|j: int|
        0 <= j < path.len() && path[j] == '/' && #[trigger] glob_match(
            pattern,
            path.subrange(0, j),
            true,
        )
}

/// Whether some pattern of the list matches `path` or an ancestor of it.
pub open spec fn any_pattern_matches(pats: Seq<Seq<char>>, path: Seq<char>, is_dir: bool) -> bool {
    exists|i: int| 0 <= i < pats.len() && #[trigger] matches_self_or_ancestor(pats[i], path, is_dir)
}

/// The positive test: no include patterns, or some include matches.
pub open spec fn spec_positive(includes: Seq<Seq<char>>, path: Seq<char>, is_dir: bool) -> bool {
    includes.len() == 0 || any_pattern_matches(includes, path, is_dir)
}

/// The negative test: no exclude matches.
pub open spec fn spec_negative(excludes: Seq<Seq<char>>, path: Seq<char>, is_dir: bool) -> bool {
    !any_pattern_matches(excludes, path, is_dir)
}

/// The inclusion decision for one relative path.
pub open spec fn spec_included(
    includes: Seq<Seq<char>>,
    excludes: Seq<Seq<char>>,
    path: Seq<char>,
    is_dir: bool,
) -> bool {
    spec_positive(includes, path, is_dir) && spec_negative(excludes, path, is_dir)
}

/// Exclude dominance: a path that an exclude pattern matches (itself or
/// through an ancestor directory) is never included, whatever the
/// include patterns say.
pub proof fn lemma_exclude_dominates(
    includes: Seq<Seq<char>>,
    excludes: Seq<Seq<char>>,
    path: Seq<char>,
    is_dir: bool,
    i: int,
)
    requires
        0 <= i < excludes.len(),
        matches_self_or_ancestor(excludes[i], path, is_dir),
    ensures
        !spec_included(includes, excludes, path, is_dir),
{
    assert(any_pattern_matches(excludes, path, is_dir));
}

/// Include patterns act as a whitelist: when include patterns are
/// configured, a path that none of them matches (itself or through an
/// ancestor directory) is not included.
pub proof fn lemma_include_whitelist_rejects(
    includes: Seq<Seq<char>>,
    excludes: Seq<Seq<char>>,
    path: Seq<char>,
    is_dir: bool,
)
    requires
        includes.len() > 0,
        forall|i: int|
            0 <= i < includes.len() ==> !matches_self_or_ancestor(
                #[trigger] includes[i],
                path,
                is_dir,
            ),
    ensures
        !spec_included(includes, excludes, path, is_dir),
{
    assert(!any_pattern_matches(includes, path, is_dir));
}

/// Include patterns act as a whitelist: a path that some include
/// pattern matches and no exclude pattern prunes is included.
pub proof fn lemma_include_whitelist_admits(
    includes: Seq<Seq<char>>,
    excludes: Seq<Seq<char>>,
    path: Seq<char>,
    is_dir: bool,
    i: int,
)
    requires
        0 <= i < includes.len(),
        matches_self_or_ancestor(includes[i], path, is_dir),
        spec_negative(excludes, path, is_dir),
    ensures
        spec_included(includes, excludes, path, is_dir),
{
    assert(any_pattern_matches(includes, path, is_dir));
}

/// Pruning is absolute: when a directory fails the negative test (as
/// `excluded_dir` decides it), no path below that directory is included,
/// so a walker that skips the whole subtree omits nothing that would
/// have been copied — even a nested file that an include pattern
/// matches.
pub proof fn lemma_prune_subtree_safe(
    includes: Seq<Seq<char>>,
    excludes: Seq<Seq<char>>,
    dir: Seq<char>,
    path: Seq<char>,
    is_dir: bool,
)
    requires
        !spec_negative(excludes, dir, true),
        dir.len() < path.len(),
        path.subrange(0, dir.len() as int) == dir,
        path[dir.len() as int] == '/',
    ensures
        !spec_included(includes, excludes, path, is_dir),
{
    let i = choose|i: int|
        0 <= i < excludes.len() && #[trigger] matches_self_or_ancestor(excludes[i], dir, true);
    if glob_match(excludes[i], dir, true) {
        assert(glob_match(excludes[i], path.subrange(0, dir.len() as int), true));
        assert(matches_self_or_ancestor(excludes[i], path, is_dir));
    } else {
        let j = choose|j: int|
            0 <= j < dir.len() && dir[j] == '/' && #[trigger] glob_match(
                excludes[i],
                dir.subrange(0, j),
                true,
            );
        assert(path.subrange(0, j) =~= dir.subrange(0, j));
        assert(path[j] == dir[j]);
        assert(glob_match(excludes[i], path.subrange(0, j), true));
        assert(matches_self_or_ancestor(excludes[i], path, is_dir));
    }
    lemma_exclude_dominates(includes, excludes, path, is_dir, i);
}

/// A compiled filter: the include patterns and the (marker-stripped)
/// exclude patterns of one configuration, each with its matcher.
pub struct Filter {
    includes: Vec<GlobPattern>,
    excludes: Vec<GlobPattern>,
}

/// Whether some compiled pattern of the list matches the path or one of
/// its ancestors.
fn any_matches(pats: &Vec<GlobPattern>, path: &str, is_dir: bool) -> (r: bool)
    ensures
        r == any_pattern_matches(
            pats@.map_values(|g: GlobPattern| g.pattern_view()),
            path@,
            is_dir,
        ),
{
    let ghost views = pats@.map_values(|g: GlobPattern| g.pattern_view());
    let mut i: usize = 0;
    while i < pats.len()
        invariant
            0 <= i <= pats@.len(),
            views == pats@.map_values(|g: GlobPattern| g.pattern_view()),
            forall|k: int| 0 <= k < i ==> !matches_self_or_ancestor(views[k], path@, is_dir),
        decreases pats@.len() - i,
    {
        if matches_one(&pats[i], path, is_dir) {
            proof {
                assert(views[i as int] == pats@[i as int].pattern_view());
            }
            return true;
        }
        i += 1;
    }
    false
}

/// Whether one compiled pattern matches the path or one of its ancestor
/// directories.
fn matches_one(g: &GlobPattern, path: &str, is_dir: bool) -> (r: bool)
    ensures
        r == matches_self_or_ancestor(g.pattern_view(), path@, is_dir),
{
    if g.matches(path, is_dir) {
        return true;
    }
    let n: usize = path.unicode_len();
    let mut j: usize = 0;
    while j < n
        invariant
            n == path@.len(),
            0 <= j <= n,
            forall|k: int|
                0 <= k < j && path@[k] == '/' ==> !glob_match(
                    g.pattern_view(),
                    #[trigger] path@.subrange(0, k),
                    true,
                ),
        decreases n - j,
    {
        if path.get_char(j) == '/' {
            let anc = path.substring_char(0, j);
            if g.matches(anc, true) {
                return true;
            }
        }
        j += 1;
    }
    false
}

impl Filter {
    /// The include patterns, in configuration order.
    pub closed spec fn includes_view(&self) -> Seq<Seq<char>> {
        self.includes@.map_values(|g: GlobPattern| g.pattern_view())
    }

    /// The exclude patterns (markers stripped), in configuration order.
    pub closed spec fn excludes_view(&self) -> Seq<Seq<char>> {
        self.excludes@.map_values(|g: GlobPattern| g.pattern_view())
    }

    /// Compile a configured pattern list into a filter. Succeeds exactly
    /// when every pattern (after stripping exclude markers) is a valid
    /// glob; otherwise reports the first offending pattern, as
    /// configured, with the compiler's message.
    pub fn build(globs: &Vec<String>) -> (r: Result<Filter, Error>)
        ensures
            r is Ok <==> all_globs_valid(views_of(globs@)),
            r is Ok ==> r->Ok_0.includes_view() == spec_includes(views_of(globs@)),
            r is Ok ==> r->Ok_0.excludes_view() == spec_excludes(views_of(globs@)),
            r is Err ==> is_first_invalid_glob_error(views_of(globs@), r->Err_0),
    {
        let ghost gs = views_of(globs@);
        let mut includes: Vec<GlobPattern> = Vec::new();
        let mut excludes: Vec<GlobPattern> = Vec::new();
        let mut i: usize = 0;
        while i < globs.len()
            invariant
                0 <= i <= globs@.len(),
                gs == views_of(globs@),
                includes@.map_values(|g: GlobPattern| g.pattern_view()) == spec_includes(
                    gs.subrange(0, i as int),
                ),
                excludes@.map_values(|g: GlobPattern| g.pattern_view()) == spec_excludes(
                    gs.subrange(0, i as int),
                ),
                forall|k: int| 0 <= k < i ==> glob_valid(effective_pattern(#[trigger] gs[k])),
            decreases globs@.len() - i,
        {
            let g: &String = &globs[i];
            let n: usize = g.as_str().unicode_len();
            let is_excl = n > 0 && g.as_str().get_char(0) == '!';
            proof {
                assert(gs[i as int] == g@);
                assert(is_excl == is_exclude_pattern(gs[i as int]));
            }
            let compiled = if is_excl {
                let stripped = g.as_str().substring_char(1, n);
                proof {
                    assert(stripped@ == exclude_body(gs[i as int]));
                }
                GlobPattern::compile(stripped)
            } else {
                GlobPattern::compile(g.as_str())
            };
            proof {
                assert(compiled is Ok ==> compiled->Ok_0.pattern_view() == effective_pattern(
                    gs[i as int],
                ));
                assert(compiled is Ok <==> glob_valid(effective_pattern(gs[i as int])));
            }
            match compiled {
                Err(cause) => {
                    return Err(Error::InvalidGlob { pattern: g.clone(), cause });
                },
                Ok(p) => {
                    let ghost pre = gs.subrange(0, i as int);
                    let ghost cur = gs.subrange(0, i as int + 1);
                    proof {
                        assert(cur.drop_last() =~= pre);
                        assert(cur.last() == gs[i as int]);
                        assert(p.pattern_view() == effective_pattern(gs[i as int]));
                    }
                    if is_excl {
                        excludes.push(p);
                        proof {
                            assert(spec_excludes(cur) == spec_excludes(pre).push(
                                exclude_body(gs[i as int]),
                            ));
                            assert(spec_includes(cur) == spec_includes(pre));
                            assert(excludes@.map_values(|g: GlobPattern| g.pattern_view())
                                =~= spec_excludes(cur));
                        }
                    } else {
                        includes.push(p);
                        proof {
                            assert(spec_includes(cur) == spec_includes(pre).push(gs[i as int]));
                            assert(spec_excludes(cur) == spec_excludes(pre));
                            assert(includes@.map_values(|g: GlobPattern| g.pattern_view())
                                =~= spec_includes(cur));
                        }
                    }
                },
            }
            i += 1;
        }
        proof {
            assert(gs.subrange(0, gs.len() as int) =~= gs);
        }
        Ok(Filter { includes, excludes })
    }

    /// The inclusion decision for one relative path.
    pub fn included(&self, path: &str, is_dir: bool) -> (r: bool)
        ensures
            r == spec_included(self.includes_view(), self.excludes_view(), path@, is_dir),
    {
        if any_matches(&self.excludes, path, is_dir) {
            return false;
        }
        if self.includes.len() == 0 {
            return true;
        }
        any_matches(&self.includes, path, is_dir)
    }

    /// Whether a directory's whole subtree is pruned by an exclude
    /// pattern: the walker may skip descending into such a directory,
    /// since nothing below it can be included.
    pub fn excluded_dir(&self, path: &str) -> (r: bool)
        ensures
            r == !spec_negative(self.excludes_view(), path@, true),
    {
        any_matches(&self.excludes, path, true)
    }
}

} // verus!
