//! The line counter: the number of newline characters in a file's content,
//! taken as raw bytes.

use vstd::prelude::*;

verus! {

/// Number of newline bytes in a byte sequence.
pub open spec fn newline_count(s: Seq<u8>) -> nat
    decreases s.len(),
{
    if s.len() == 0 {
        0
    } else {
        newline_count(s.drop_last()) + if s.last() == 10u8 {
            1nat
        } else {
            0nat
        }
    }
}

/// Content with exactly `k` newline characters counts as `k` whatever
/// follows the last of them: a final line left unterminated (no trailing
/// newline) adds nothing, so such a file reports `k`, never `k + 1`.
pub proof fn lemma_count_ignores_unterminated_tail(s: Seq<u8>, t: Seq<u8>)
    requires
        forall|i: int| 0 <= i < t.len() ==> t[i] != 10u8,
    ensures
        newline_count(s + t) == newline_count(s),
    decreases t.len(),
{
    if t.len() == 0 {
        assert(s + t =~= s);
    } else {
        assert((s + t).drop_last() =~= s + t.drop_last());
        assert((s + t).last() == t.last());
        lemma_count_ignores_unterminated_tail(s, t.drop_last());
    }
}

/// Counts the newline characters in a file's content. A final line without
/// a trailing newline adds nothing: content with exactly `k` newline bytes
/// yields `k`, never `k + 1`.
pub fn count_newlines(content: &[u8]) -> (n: usize)
    ensures
        n == newline_count(content@),
{
    let len = content.len();
    let mut n: usize = 0;
    let mut i: usize = 0;
    while i < len
        invariant
            i <= len,
            len == content@.len(),
            n <= i,
            n == newline_count(content@.subrange(0, i as int)),
        decreases len - i,
    {
        proof {
            assert(content@.subrange(0, i + 1).drop_last() =~= content@.subrange(0, i as int));
            assert(content@.subrange(0, i + 1).last() == content@[i as int]);
        }
        if content[i] == 10u8 {
            n = n + 1;
        }
        i = i + 1;
    }
    proof {
        assert(content@.subrange(0, len as int) =~= content@);
    }
    n
}

} // verus!
