//! Configuration for one clone operation.

use vstd::prelude::*;

verus! {

/// The views of a list of pattern strings.
pub open spec fn views_of(globs: Seq<String>) -> Seq<Seq<char>> {
    globs.map_values(|s: String| s@)
}

/// Options controlling one clone operation: an ordered list of glob
/// patterns (a leading `!` marks an exclude pattern), whether a
/// pre-existing destination may be merged into, and whether the
/// copy-on-write attempt is skipped in favour of a plain byte copy.
#[derive(Debug)]
pub struct Options {
    pub globs: Vec<String>,
    pub overwrite: bool,
    pub no_reflink: bool,
}

impl Options {
    /// The configured patterns, as sequences of characters.
    pub open spec fn globs_view(&self) -> Seq<Seq<char>> {
        views_of(self.globs@)
    }

    /// Fresh options: no patterns, no overwrite, reflink attempted.
    pub fn new() -> (r: Options)
        ensures
            r.globs@.len() == 0,
            !r.overwrite,
            !r.no_reflink,
    {
        Options { globs: Vec::new(), overwrite: false, no_reflink: false }
    }

    /// Append one glob pattern, keeping the order of earlier ones.
    pub fn glob(self, pattern: &str) -> (r: Options)
        ensures
            r.globs_view() == self.globs_view().push(pattern@),
            r.overwrite == self.overwrite,
            r.no_reflink == self.no_reflink,
    {
        let mut globs = self.globs;
        globs.push(String::from_str(pattern));
        let r = Options { globs, overwrite: self.overwrite, no_reflink: self.no_reflink };
        proof {
            assert(r.globs_view() =~= self.globs_view().push(pattern@));
        }
        r
    }

    /// Set whether a pre-existing destination is merged into rather
    /// than rejected.
    pub fn overwrite(self, overwrite: bool) -> (r: Options)
        ensures
            r.globs_view() == self.globs_view(),
            r.overwrite == overwrite,
            r.no_reflink == self.no_reflink,
    {
        Options { globs: self.globs, overwrite, no_reflink: self.no_reflink }
    }

    /// Set whether the copy-on-write attempt is skipped.
    pub fn no_reflink(self, no_reflink: bool) -> (r: Options)
        ensures
            r.globs_view() == self.globs_view(),
            r.overwrite == self.overwrite,
            r.no_reflink == no_reflink,
    {
        Options { globs: self.globs, overwrite: self.overwrite, no_reflink }
    }
}

impl Default for Options {
    /// Same value as `Options::new`.
    fn default() -> (r: Options)
        ensures
            r.globs@.len() == 0,
            !r.overwrite,
            !r.no_reflink,
    {
        Options::new()
    }
}

} // verus!
