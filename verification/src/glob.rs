//! Compiled glob patterns, backed by the `ignore` crate's override
//! matcher. One `GlobPattern` holds exactly one compiled pattern; what
//! compiling and matching return is named by the uninterpreted functions
//! `glob_valid` and `glob_match`, and everything built on top speaks of
//! those names.

use vstd::prelude::*;

verus! {

#[verifier::external_type_specification]
#[verifier::external_body]
pub struct ExOverride(ignore::overrides::Override);

/// Whether the `ignore` crate accepts `pattern` as a well-formed glob:
/// the outcome of adding it to an override builder and building the
/// matcher, a function of the pattern text alone.
pub uninterp spec fn glob_valid(pattern: Seq<char>) -> bool;

/// Whether the single glob `pattern` matches the relative path `path`
/// (`is_dir` telling directory from file), as the `ignore` crate's
/// override matcher decides it: a function of the three arguments alone.
pub uninterp spec fn glob_match(pattern: Seq<char>, path: Seq<char>, is_dir: bool) -> bool;

/// One glob pattern together with its compiled matcher. The matcher is
/// always the one compiled from `pattern`; the only constructor is
/// `GlobPattern::compile`.
pub struct GlobPattern {
    pattern: String,
    matcher: ignore::overrides::Override,
}

impl GlobPattern {
    /// The pattern this matcher was compiled from.
    pub(crate) closed spec fn pattern_view(&self) -> Seq<char> {
        self.pattern@
    }

    /// Relies on the `ignore` crate's `OverrideBuilder` (`new`, `add`,
    /// `build`): compiles one glob pattern into a matcher for paths
    /// given relative to the tree root. Compilation succeeds or fails
    /// depending on the pattern text alone; on failure the builder's
    /// error message is returned.
    #[verifier::external_body]
    pub(crate) fn compile(pattern: &str) -> (r: Result<GlobPattern, String>)
        ensures
            r is Ok <==> glob_valid(pattern@),
            r is Ok ==> r->Ok_0.pattern_view() == pattern@,
    {
        let mut builder = ignore::overrides::OverrideBuilder::new(".");
        if let Err(e) = builder.add(pattern) {
            return Err(e.to_string());
        }
        match builder.build() {
            Ok(matcher) => Ok(GlobPattern { pattern: pattern.to_string(), matcher }),
            Err(e) => Err(e.to_string()),
        }
    }

    /// Relies on the `ignore` crate's `Override::matched`: whether this
    /// pattern matches the given path relative to the root. For a
    /// matcher holding one plain (non-negated) glob, a whitelist match
    /// is reported exactly when the glob matches the path.
    #[verifier::external_body]
    pub(crate) fn matches(&self, path: &str, is_dir: bool) -> (r: bool)
        ensures
            r == glob_match(self.pattern_view(), path@, is_dir),
    {
        matches!(
            self.matcher.matched(std::path::Path::new(path), is_dir),
            ignore::Match::Whitelist(_)
        )
    }
}

} // verus!
