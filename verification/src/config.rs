//! The resolved options of one invocation: scan root, effective exclusion
//! set, and the quiet flag. Built once from defaults plus flags, read-only
//! thereafter.

use crate::exclude::ExclusionSet;
use vstd::prelude::*;

verus! {

/// Options for one run.
pub struct RunConfig {
    pub root: String,
    pub exclusions: ExclusionSet,
    pub quiet: bool,
}

impl RunConfig {
    /// Resolves the options: the root defaults to the current directory,
    /// and the exclusion set is the built-in defaults followed by the
    /// user-supplied names in the order given.
    pub fn new(root: Option<String>, extra_excludes: Vec<String>, quiet: bool) -> (r: RunConfig)
        ensures
            r.quiet == quiet,
            match root {
                Some(p) => r.root@ == p@,
                None => r.root@ == "."@,
            },
            r.exclusions.names.deep_view() == seq!["target"@, "build"@, "bin"@, "dist"@, ".git"@]
                + extra_excludes.deep_view(),
    {
        let root = match root {
            Some(p) => p,
            None => ".".to_owned(),
        };
        let mut exclusions = ExclusionSet::defaults();
        let ghost base = seq!["target"@, "build"@, "bin"@, "dist"@, ".git"@];
        let n = extra_excludes.len();
        let mut i: usize = 0;
        while i < n
            invariant
                i <= n,
                n == extra_excludes@.len(),
                exclusions.names.deep_view() == base + extra_excludes.deep_view().subrange(
                    0,
                    i as int,
                ),
            decreases n - i,
        {
            exclusions.add(extra_excludes[i].clone());
            proof {
                assert(exclusions.names.deep_view() =~= base + extra_excludes.deep_view().subrange(
                    0,
                    i + 1,
                ));
            }
            i = i + 1;
        }
        proof {
            assert(extra_excludes.deep_view().subrange(0, n as int) =~= extra_excludes.deep_view());
        }
        RunConfig { root, exclusions, quiet }
    }
}

} // verus!
