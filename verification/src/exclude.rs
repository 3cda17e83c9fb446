//! The exclusion set: directory names that prune a whole subtree.
//!
//! Matching is exact, per path segment: a segment equal to an excluded name
//! excludes the entry (and everything beneath it, when the walker prunes on
//! the same test), while a name that is merely a substring of a segment
//! excludes nothing.

use vstd::prelude::*;

verus! {

/// Whether some segment of a path equals some excluded name.
pub open spec fn spec_excluded(segments: Seq<Seq<char>>, names: Seq<Seq<char>>) -> bool {
    exists|i: int, j: int|
        0 <= i < segments.len() && 0 <= j < names.len() && segments[i] == names[j]
}

/// The set of directory names whose subtrees are skipped.
pub struct ExclusionSet {
    pub names: Vec<String>,
}

impl ExclusionSet {
    /// The built-in defaults: directories that typically hold build output
    /// or version-control data.
    pub fn defaults() -> (r: ExclusionSet)
        ensures
            r.names.deep_view() =~= seq!["target"@, "build"@, "bin"@, "dist"@, ".git"@],
    {
        let names: Vec<String> = vec![
            "target".to_owned(),
            "build".to_owned(),
            "bin".to_owned(),
            "dist".to_owned(),
            ".git".to_owned(),
        ];
        let r = ExclusionSet { names };
        proof {
            assert(r.names.deep_view() =~= seq!["target"@, "build"@, "bin"@, "dist"@, ".git"@]);
        }
        r
    }

    /// Adds one directory name to the set.
    pub fn add(&mut self, name: String)
        ensures
            final(self).names.deep_view() == old(self).names.deep_view().push(name@),
    {
        self.names.push(name);
        proof {
            assert(final(self).names.deep_view() =~= old(self).names.deep_view().push(name@));
        }
    }

    /// Whether a path, given as its segments, is excluded: true exactly when
    /// some segment equals some excluded name.
    pub fn is_excluded(&self, segments: &Vec<String>) -> (r: bool)
        ensures
            r == spec_excluded(segments.deep_view(), self.names.deep_view()),
    {
        let n = segments.len();
        let mut i: usize = 0;
        while i < n
            invariant
                i <= n,
                n == segments@.len(),
                forall|p: int, q: int|
                    0 <= p < i && 0 <= q < self.names.deep_view().len()
                        ==> segments.deep_view()[p] != self.names.deep_view()[q],
            decreases n - i,
        {
            let m = self.names.len();
            let mut j: usize = 0;
            while j < m
                invariant
                    i < n,
                    j <= m,
                    n == segments@.len(),
                    m == self.names@.len(),
                    forall|q: int|
                        0 <= q < j ==> segments.deep_view()[i as int] != self.names.deep_view()[q],
                decreases m - j,
            {
                if segments[i].eq(&self.names[j]) {
                    proof {
                        assert(segments.deep_view()[i as int] == self.names.deep_view()[j as int]);
                    }
                    return true;
                }
                j = j + 1;
            }
            i = i + 1;
        }
        false
    }
}

/// A path with an excluded name among its segments is excluded whatever the
/// segment's position: a file beneath an excluded directory is skipped at
/// any nesting depth.
pub proof fn lemma_excluded_at_any_depth(
    segments: Seq<Seq<char>>,
    names: Seq<Seq<char>>,
    i: int,
    j: int,
)
    requires
        0 <= i < segments.len(),
        0 <= j < names.len(),
        segments[i] == names[j],
    ensures
        spec_excluded(segments, names),
{
}

/// Exact-match semantics: a path none of whose segments equals any excluded
/// name is not excluded, however the excluded names may otherwise relate to
/// the segments (in particular, a name that is only a substring of a segment
/// excludes nothing).
pub proof fn lemma_exclusion_is_exact(segments: Seq<Seq<char>>, names: Seq<Seq<char>>)
    requires
        forall|i: int, j: int|
            0 <= i < segments.len() && 0 <= j < names.len() ==> segments[i] != names[j],
    ensures
        !spec_excluded(segments, names),
{
}

} // verus!
