//! The per-entry decision of the pipeline: whether a walked path is counted
//! at all, and under which language.
//!
//! The walk itself is directory I/O and lives outside the library; it hands
//! in each path's segments and extension, and prunes a directory exactly
//! when this decision says so.

use crate::exclude::{spec_excluded, ExclusionSet};
use crate::lang::{lang_has_ext, LanguageTable};
use vstd::prelude::*;

verus! {

/// Decides whether a walked file takes part in the count: `Some(i)` names
/// the language it falls under, `None` means it is skipped. A path with a
/// segment in the exclusion set is never counted, whatever its extension —
/// so no file beneath an excluded directory reaches any record or total —
/// and a file without an extension, or with an unrecognized one, is skipped
/// silently.
pub fn should_count(
    table: &LanguageTable,
    excl: &ExclusionSet,
    segments: &Vec<String>,
    ext: Option<&String>,
) -> (r: Option<usize>)
    ensures
        spec_excluded(segments.deep_view(), excl.names.deep_view()) ==> r is None,
        ext is None ==> r is None,
        (ext is Some && !spec_excluded(segments.deep_view(), excl.names.deep_view()))
            ==> match r {
            Some(i) => i < table.langs@.len() && lang_has_ext(table.langs@[i as int], ext->0@) && (
            forall|j: int| 0 <= j < i ==> !lang_has_ext(#[trigger] table.langs@[j], ext->0@)),
            None => forall|j: int|
                0 <= j < table.langs@.len() ==> !lang_has_ext(#[trigger] table.langs@[j], ext->0@),
        },
{
    if excl.is_excluded(segments) {
        return None;
    }
    match ext {
        None => None,
        Some(e) => table.classify(e),
    }
}

} // verus!
