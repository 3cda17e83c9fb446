//! The aggregator: per-file records and per-language running totals, kept
//! consistent so that the grand total equals both the sum over records and
//! the sum over language totals.

use vstd::prelude::*;

verus! {

/// One accepted file: its path as traversed and its newline count.
pub struct FileRecord {
    pub path: String,
    pub lines: usize,
}

/// One language's accumulated line count.
pub struct LangTotal {
    pub name: String,
    pub lines: usize,
}

/// Sum of line counts over file records.
pub open spec fn sum_records(rs: Seq<FileRecord>) -> int
    decreases rs.len(),
{
    if rs.len() == 0 {
        0
    } else {
        sum_records(rs.drop_last()) + rs.last().lines
    }
}

/// Sum of line counts over language totals.
pub open spec fn sum_totals(ts: Seq<LangTotal>) -> int
    decreases ts.len(),
{
    if ts.len() == 0 {
        0
    } else {
        sum_totals(ts.drop_last()) + ts.last().lines
    }
}

/// Each language appears at most once among the totals.
pub open spec fn totals_names_unique(ts: Seq<LangTotal>) -> bool {
    forall|i: int, j: int|
        #![trigger ts[i].name@, ts[j].name@]
        0 <= i < j < ts.len() ==> ts[i].name@ != ts[j].name@
}

pub proof fn lemma_sum_totals_nonneg(ts: Seq<LangTotal>)
    ensures
        sum_totals(ts) >= 0,
    decreases ts.len(),
{
    if ts.len() > 0 {
        lemma_sum_totals_nonneg(ts.drop_last());
    }
}

/// Replacing one entry changes the sum by the difference of line counts.
pub proof fn lemma_sum_totals_update(ts: Seq<LangTotal>, i: int, v: LangTotal)
    requires
        0 <= i < ts.len(),
    ensures
        sum_totals(ts.update(i, v)) == sum_totals(ts) - ts[i].lines + v.lines,
    decreases ts.len(),
{
    if i == ts.len() - 1 {
        assert(ts.update(i, v).drop_last() =~= ts.drop_last());
    } else {
        assert(ts.update(i, v).drop_last() =~= ts.drop_last().update(i, v));
        lemma_sum_totals_update(ts.drop_last(), i, v);
    }
}

/// Every single entry is bounded by the whole sum.
pub proof fn lemma_entry_le_sum(ts: Seq<LangTotal>, i: int)
    requires
        0 <= i < ts.len(),
    ensures
        ts[i].lines <= sum_totals(ts),
    decreases ts.len(),
{
    if i == ts.len() - 1 {
        lemma_sum_totals_nonneg(ts.drop_last());
    } else {
        lemma_entry_le_sum(ts.drop_last(), i);
    }
}

/// How the totals change when `lines` is recorded for language `name`:
/// the existing entry is bumped, or a new entry is appended on the first
/// file of that language.
pub open spec fn totals_after_add(
    oldts: Seq<LangTotal>,
    newts: Seq<LangTotal>,
    name: String,
    lines: usize,
) -> bool {
    if exists|i: int| 0 <= i < oldts.len() && oldts[i].name@ == name@ {
        let i = choose|i: int| 0 <= i < oldts.len() && oldts[i].name@ == name@;
        newts == oldts.update(
            i,
            LangTotal { name: oldts[i].name, lines: (oldts[i].lines + lines) as usize },
        )
    } else {
        newts == oldts.push(LangTotal { name, lines })
    }
}

/// Accumulates file records and per-language totals for one run.
pub struct Aggregator {
    pub records: Vec<FileRecord>,
    pub totals: Vec<LangTotal>,
    pub total: usize,
}

impl Aggregator {
    /// The aggregator's invariant: the grand total equals the sum over the
    /// records and the sum over the language totals, and no language has two
    /// entries.
    pub open spec fn wf(&self) -> bool {
        &&& sum_records(self.records@) == self.total as int
        &&& sum_totals(self.totals@) == self.total as int
        &&& totals_names_unique(self.totals@)
    }

    /// An empty aggregator.
    pub fn new() -> (r: Aggregator)
        ensures
            r.wf(),
            r.records@.len() == 0,
            r.totals@.len() == 0,
            r.total == 0,
    {
        Aggregator { records: Vec::new(), totals: Vec::new(), total: 0 }
    }

    /// Records one classified file: appends a record (zero-line files
    /// included, so file counts stay accurate) and adds its count into the
    /// named language's total, creating the entry on first occurrence.
    ///
    /// Returns false, changing nothing, exactly when the grand total would
    /// exceed the machine's integer range.
    pub fn add_record(&mut self, path: String, lang_name: &String, lines: usize) -> (ok: bool)
        requires
            old(self).wf(),
        ensures
            final(self).wf(),
            ok <==> old(self).total + lines <= usize::MAX,
            ok ==> final(self).records@ == old(self).records@.push(FileRecord { path, lines }),
            ok ==> final(self).total == old(self).total + lines,
            ok ==> totals_after_add(old(self).totals@, final(self).totals@, *lang_name, lines),
            ok ==> exists|i: int|
                0 <= i < final(self).totals@.len() && final(self).totals@[i].name@ == lang_name@
                    && final(self).totals@[i].lines >= lines,
            !ok ==> *final(self) == *old(self),
    {
        let new_total = match self.total.checked_add(lines) {
            Some(t) => t,
            None => {
                return false;
            },
        };
        let n = self.totals.len();
        let mut i: usize = 0;
        while i < n
            invariant
                i <= n,
                n == self.totals@.len(),
                forall|j: int| 0 <= j < i ==> #[trigger] self.totals@[j].name@ != lang_name@,
                *self == *old(self),
                old(self).wf(),
                new_total == old(self).total + lines,
            decreases n - i,
        {
            if self.totals[i].name.eq(lang_name) {
                let ghost oldts = old(self).totals@;
                assert(oldts[i as int].name@ == lang_name@);
                let prev = self.totals[i].lines;
                proof {
                    lemma_entry_le_sum(self.totals@, i as int);
                }
                let nm = self.totals[i].name.clone();
                let bumped = LangTotal { name: nm, lines: prev + lines };
                proof {
                    lemma_sum_totals_update(self.totals@, i as int, bumped);
                }
                self.totals[i] = bumped;
                self.records.push(FileRecord { path, lines });
                self.total = new_total;
                proof {
                    assert(self.records@.drop_last() =~= old(self).records@);
                    let k = choose|k: int| 0 <= k < oldts.len() && oldts[k].name@ == lang_name@;
                    assert(k == i as int);
                    assert(self.totals@[i as int].lines >= lines);
                }
                return true;
            }
            i = i + 1;
        }
        let nm = lang_name.clone();
        self.totals.push(LangTotal { name: nm, lines });
        self.records.push(FileRecord { path, lines });
        self.total = new_total;
        proof {
            let oldts = old(self).totals@;
            assert(self.records@.drop_last() =~= old(self).records@);
            assert(self.totals@.drop_last() =~= oldts);
            assert(self.totals@[self.totals@.len() - 1].name@ == lang_name@);
            assert forall|p: int, q: int|
                #![trigger self.totals@[p].name@, self.totals@[q].name@]
                0 <= p < q < self.totals@.len() implies self.totals@[p].name@
                != self.totals@[q].name@ by {
                if q < self.totals@.len() - 1 {
                    assert(oldts[p].name@ == self.totals@[p].name@);
                    assert(oldts[q].name@ == self.totals@[q].name@);
                } else {
                    assert(oldts[p].name@ != lang_name@);
                }
            }
        }
        true
    }
}

/// In any well-formed aggregator, the sum over all per-language totals
/// equals the sum over all per-file line counts: what quiet mode prints as
/// the grand total is the same number either way.
pub proof fn lemma_grand_total_consistent(a: Aggregator)
    requires
        a.wf(),
    ensures
        sum_totals(a.totals@) == sum_records(a.records@),
        sum_totals(a.totals@) == a.total as int,
{
}

} // verus!
