//! Relative-path helpers: the parent directory of a slash-separated
//! relative path.

use vstd::prelude::*;

verus! {

/// The length of the parent prefix of `path`: the index of the last
/// `/`, if any.
pub open spec fn parent_len(path: Seq<char>) -> Option<nat>
    decreases path.len(),
{
    if path.len() == 0 {
        None
    } else if path[path.len() - 1] == '/' {
        Some((path.len() - 1) as nat)
    } else {
        parent_len(path.drop_last())
    }
}

/// The parent directory of a relative path: everything before the last
/// `/`, or nothing for a path with a single component.
pub open spec fn spec_parent(path: Seq<char>) -> Option<Seq<char>> {
    match parent_len(path) {
        Some(l) => Some(path.subrange(0, l as int)),
        None => None,
    }
}

/// The parent directory of a relative path, as `spec_parent` gives it.
pub fn parent_of(path: &str) -> (r: Option<String>)
    ensures
        match r {
            Some(p) => spec_parent(path@) == Some(p@),
            None => spec_parent(path@) is None,
        },
{
    let n: usize = path.unicode_len();
    proof {
        assert(path@.subrange(0, n as int) =~= path@);
    }
    let mut j: usize = n;
    while j > 0
        invariant
            n == path@.len(),
            0 <= j <= n,
            parent_len(path@) == parent_len(path@.subrange(0, j as int)),
        decreases j,
    {
        if path.get_char(j - 1) == '/' {
            proof {
                assert(parent_len(path@.subrange(0, j as int)) == Some((j - 1) as nat));
            }
            return Some(String::from_str(path.substring_char(0, j - 1)));
        }
        proof {
            assert(path@.subrange(0, j as int).drop_last() =~= path@.subrange(0, j - 1 as int));
        }
        j -= 1;
    }
    proof {
        assert(parent_len(path@.subrange(0, 0)) is None);
    }
    None
}

} // verus!
