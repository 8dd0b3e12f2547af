//! Run-history records: one entry per finished run, readable as a
//! scoreboard sorted by the wave reached.

use vstd::prelude::*;

verus! {

#[derive(Debug, Clone, Copy, PartialEq, Eq, Structural)]
pub struct Record {
    pub wave_num: u64,
}

/// The records paired with a most-recent marker: only the entry that was
/// first in insertion order carries `true`.
pub open spec fn spec_marked(records: Seq<Record>) -> Seq<(bool, Record)> {
    Seq::new(records.len(), |i: int| (i == 0, records[i]))
}

#[derive(Debug)]
pub struct Records {
    records: Vec<Record>,
}

impl Default for Records {
    fn default() -> (r: Self)
        ensures
            r.records_view() == Seq::<Record>::empty(),
    {
        Records { records: Vec::new() }
    }
}

impl Records {
    pub closed spec fn records_view(self) -> Seq<Record> {
        self.records@
    }

    /// Appends one run's record.
    pub fn add_record(&mut self, record: Record)
        ensures
            final(self).records_view() == old(self).records_view().push(record),
    {
        self.records.push(record)
    }

    /// The records marked and ordered by wave number, ascending: a
    /// rearrangement of the marked records, where the marker singles out
    /// the first-added entry.  The sort is stable for the marked record:
    /// every record placed before it has a strictly smaller wave number, so
    /// among equal wave numbers the first-added record comes first.
    pub fn sorted_records(&self) -> (r: Vec<(bool, Record)>)
        requires
            self.records_view().len() >= 1,
        ensures
            r@.len() == self.records_view().len(),
            forall|i: int, j: int|
                0 <= i < j < r@.len() ==> (#[trigger] r@[i]).1.wave_num <= (
                #[trigger] r@[j]).1.wave_num,
            r@.to_multiset() == spec_marked(self.records_view()).to_multiset(),
            forall|i: int, j: int|
                0 <= i < j < r@.len() && (#[trigger] r@[j]).0 ==> (#[trigger] r@[i]).1.wave_num
                    < r@[j].1.wave_num,
    {
        broadcast use vstd::seq_lib::group_to_multiset_ensures;

        let ghost marked = spec_marked(self.records@);
        let mut work: Vec<(bool, Record)> = Vec::new();
        let mut i: usize = 0;
        while i < self.records.len()
            invariant
                i <= self.records@.len(),
                marked == spec_marked(self.records@),
                work@ == marked.take(i as int),
            decreases self.records@.len() - i,
        {
            work.push((i == 0, self.records[i]));
            proof {
                assert(work@ =~= marked.take(i + 1));
            }
            i = i + 1;
        }
        proof {
            assert(work@ =~= marked);
        }
        proof {
            // The one marked entry sits at the head of the working list.
            assert(forall|q: int| 0 <= q < work@.len() && (#[trigger] work@[q]).0 ==> q == 0);
        }
        let mut out: Vec<(bool, Record)> = Vec::new();
        while work.len() > 0
            invariant
                out@.len() + work@.len() == marked.len(),
                out@.to_multiset().add(work@.to_multiset()) =~= marked.to_multiset(),
                forall|a: int, b: int|
                    0 <= a < b < out@.len() ==> (#[trigger] out@[a]).1.wave_num <= (
                    #[trigger] out@[b]).1.wave_num,
                forall|a: int, b: int|
                    0 <= a < out@.len() && 0 <= b < work@.len() ==> (#[trigger] out@[a]).1.wave_num
                        <= (#[trigger] work@[b]).1.wave_num,
                forall|q1: int, q2: int|
                    0 <= q1 < q2 < work@.len() ==> !((#[trigger] work@[q1]).0 && (
                    #[trigger] work@[q2]).0),
                forall|q1: int, q2: int|
                    0 <= q1 < q2 < work@.len() && (#[trigger] work@[q2]).0 ==> (
                    #[trigger] work@[q1]).1.wave_num != work@[q2].1.wave_num,
                forall|a: int, q: int|
                    0 <= a < out@.len() && 0 <= q < work@.len() && (#[trigger] work@[q]).0 ==> (
                    #[trigger] out@[a]).1.wave_num < work@[q].1.wave_num,
                forall|a: int, b: int|
                    0 <= a < b < out@.len() && (#[trigger] out@[b]).0 ==> (
                    #[trigger] out@[a]).1.wave_num < out@[b].1.wave_num,
            decreases work@.len(),
        {
            let mut m: usize = 0;
            let mut k: usize = 1;
            while k < work.len()
                invariant
                    work@.len() > 0,
                    m < k <= work@.len(),
                    forall|b: int|
                        0 <= b < k ==> work@[m as int].1.wave_num <= (
                        #[trigger] work@[b]).1.wave_num,
                    forall|b: int|
                        0 <= b < m ==> (#[trigger] work@[b]).1.wave_num
                            > work@[m as int].1.wave_num,
                decreases work@.len() - k,
            {
                if work[k].1.wave_num < work[m].1.wave_num {
                    m = k;
                }
                k = k + 1;
            }
            let ghost pre_work = work@;
            let ghost pre_out = out@;
            let v = work.remove(m);
            out.push(v);
            proof {
                pre_work.to_multiset_ensures();
                pre_out.to_multiset_ensures();
                assert(work@ == pre_work.remove(m as int));
                assert(out@ == pre_out.push(v));
                assert(pre_work.remove(m as int).to_multiset() =~= pre_work.to_multiset().remove(
                    v,
                ));
                assert(pre_out.push(v).to_multiset() =~= pre_out.to_multiset().insert(v));
                assert(pre_work[m as int] == v);
                assert(pre_work.contains(v));
                assert(pre_work.to_multiset().count(v) >= 1);
                assert(out@.to_multiset().add(work@.to_multiset()) =~= marked.to_multiset());
                // Removal keeps the remaining entries in order: each index of
                // the new list reads an entry of the old one.
                assert(forall|q: int|
                    0 <= q < work@.len() ==> #[trigger] work@[q] == (if q < m as int {
                        pre_work[q]
                    } else {
                        pre_work[q + 1]
                    }));
                // The taken entry is strictly below a marked entry still in
                // the list: equal wave numbers would contradict either the
                // first-minimum choice or the marked-first ordering.
                assert forall|q: int|
                    0 <= q < work@.len() && (#[trigger] work@[q]).0 implies v.1.wave_num
                    < work@[q].1.wave_num by {
                    let qo: int = if q < m as int {
                        q
                    } else {
                        q + 1
                    };
                    assert(work@[q] == pre_work[qo]);
                    assert(v.1.wave_num <= pre_work[qo].1.wave_num);
                    if qo < m as int {
                        assert(pre_work[qo].1.wave_num > v.1.wave_num);
                    } else {
                        assert(qo > m as int);
                        assert(pre_work[m as int].1.wave_num != pre_work[qo].1.wave_num);
                    }
                }
                if v.0 {
                    // The marked entry leaves the working list; everything
                    // already placed is strictly below it.
                    assert forall|a: int, b: int|
                        0 <= a < b < out@.len() && (#[trigger] out@[b]).0 implies (
                    #[trigger] out@[a]).1.wave_num < out@[b].1.wave_num by {
                        if b == out@.len() - 1 {
                            assert(out@[a] == pre_out[a]);
                        }
                    }
                }
            }
        }
        proof {
            assert(work@.to_multiset() =~= Seq::<(bool, Record)>::empty().to_multiset());
            assert(out@.to_multiset() =~= marked.to_multiset());
            assert(out@.len() == out@.to_multiset().len());
            assert(marked.len() == marked.to_multiset().len());
        }
        out
    }
}

} // verus!
