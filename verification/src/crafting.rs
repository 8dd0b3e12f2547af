//! Crafting: a recipe consumes fixed counts of input items from the
//! inventory and adds its output stacks.
//!
//! A craft succeeds exactly when every input line can be withdrawn from the
//! inventory as it stood before the craft.  On failure the lines that were
//! short are reported with their exact shortfall; input lines that could be
//! withdrawn have already been consumed by then and are not restored.

use vstd::prelude::*;

use crate::items;
use crate::items::{Inventory, Item, Stack};

verus! {

#[derive(Debug)]
pub struct Recipes {
    /// Input lines: an item kind and how many of it the craft consumes.
    /// No two lines name the same kind.
    pub input: Vec<(Item, u64)>,
    /// What the craft produces.
    pub output: Vec<Stack>,
}

#[derive(Debug)]
pub enum Error {
    MissingItems { missing: Vec<(Item, u64)>, overflow: Option<Vec<Stack>> },
    OverflowItems(Vec<Stack>),
}

/// Whether one input line can be withdrawn from an inventory holding
/// `stacks`: the count must fit one stack and be covered by what is held.
pub open spec fn spec_line_ok(stacks: Seq<Stack>, item: Item, count: u64) -> bool {
    count <= item.category.spec_max_in_stack() && (count == 0 || items::spec_count_of(
        stacks,
        item,
    ) >= count)
}

/// Whether one input line is short: it could be withdrawn size-wise but the
/// inventory holds fewer than it asks.
pub open spec fn spec_line_short(stacks: Seq<Stack>, item: Item, count: u64) -> bool {
    0 < count <= item.category.spec_max_in_stack() && items::spec_count_of(stacks, item) < count
}

/// Whether `entry` reports exactly the shortfall of the line `(item, count)`
/// against an inventory holding `stacks`.
pub open spec fn spec_shortfall_of(
    stacks: Seq<Stack>,
    item: Item,
    count: u64,
    entry: (Item, u64),
) -> bool {
    entry.0.spec_eq(item) && entry.1 == count - items::spec_count_of(stacks, item)
}

/// Whether `entry` is the exact shortfall of some short input line.
pub open spec fn spec_entry_is_shortfall(
    stacks: Seq<Stack>,
    lines: Seq<(Item, u64)>,
    entry: (Item, u64),
) -> bool {
    exists|j: int|
        0 <= j < lines.len() && spec_line_short(stacks, (#[trigger] lines[j]).0, lines[j].1)
            && spec_shortfall_of(stacks, lines[j].0, lines[j].1, entry)
}

/// Whether the line `(item, count)`'s exact shortfall appears in `missing`.
pub open spec fn spec_line_reported(
    stacks: Seq<Stack>,
    item: Item,
    count: u64,
    missing: Seq<(Item, u64)>,
) -> bool {
    exists|k: int|
        0 <= k < missing.len() && spec_shortfall_of(stacks, item, count, #[trigger] missing[k])
}

/// Every reported shortfall entry is the exact shortfall of some short
/// input line.
pub open spec fn spec_missing_sound(
    stacks: Seq<Stack>,
    lines: Seq<(Item, u64)>,
    missing: Seq<(Item, u64)>,
) -> bool {
    forall|k: int|
        0 <= k < missing.len() ==> spec_entry_is_shortfall(stacks, lines, #[trigger] missing[k])
}

/// Every short input line is reported with its exact shortfall.
pub open spec fn spec_missing_complete(
    stacks: Seq<Stack>,
    lines: Seq<(Item, u64)>,
    missing: Seq<(Item, u64)>,
) -> bool {
    forall|j: int|
        0 <= j < lines.len() && spec_line_short(stacks, (#[trigger] lines[j]).0, lines[j].1)
            ==> spec_line_reported(stacks, lines[j].0, lines[j].1, missing)
}

/// What a craft attempt withdraws from an inventory holding `stacks`: the
/// counts of the lines that can be withdrawn; lines that cannot contribute
/// nothing.
pub open spec fn spec_taken_sum(stacks: Seq<Stack>, lines: Seq<(Item, u64)>) -> int
    decreases lines.len(),
{
    if lines.len() == 0 {
        0
    } else {
        spec_taken_sum(stacks, lines.drop_last()) + (if spec_line_ok(
            stacks,
            lines.last().0,
            lines.last().1,
        ) {
            lines.last().1 as int
        } else {
            0
        })
    }
}

proof fn lemma_taken_sum_step(stacks: Seq<Stack>, lines: Seq<(Item, u64)>, i: int)
    requires
        0 <= i < lines.len(),
    ensures
        spec_taken_sum(stacks, lines.take(i + 1)) == spec_taken_sum(stacks, lines.take(i)) + (
        if spec_line_ok(stacks, lines[i].0, lines[i].1) {
            lines[i].1 as int
        } else {
            0
        }),
{
    assert(lines.take(i + 1).drop_last() =~= lines.take(i));
    assert(lines.take(i + 1).last() == lines[i]);
}

/// Totals agree for stack lists of equal length and pointwise equal counts.
proof fn lemma_total_count_pointwise(s1: Seq<Stack>, s2: Seq<Stack>)
    requires
        s1.len() == s2.len(),
        forall|i: int| 0 <= i < s1.len() ==> (#[trigger] s1[i]).count == s2[i].count,
    ensures
        items::spec_total_count(s1) == items::spec_total_count(s2),
    decreases s1.len(),
{
    if s1.len() != 0 {
        assert(s1.drop_last().len() == s2.drop_last().len());
        lemma_total_count_pointwise(s1.drop_last(), s2.drop_last());
        assert(s1.last().count == s2.last().count);
    }
}

impl Recipes {
    /// No two input lines name the same kind of item.
    pub open spec fn wf(self) -> bool {
        forall|i: int, j: int|
            0 <= i < j < self.input@.len() ==> !(#[trigger] self.input@[i]).0.spec_eq(
                (#[trigger] self.input@[j]).0,
            )
    }

    /// Withdraws every input line that can be withdrawn, in order, and
    /// collects the exact shortfall of each line that cannot; reports
    /// whether any line failed.
    #[verifier::rlimit(100)]
    #[verifier::spinoff_prover]
    fn take_lines(&self, inv: &mut Inventory) -> (r: (bool, Vec<(Item, u64)>))
        requires
            self.wf(),
            old(inv).wf(),
        ensures
            final(inv).wf(),
            final(inv).max_stacks == old(inv).max_stacks,
            r.0 <==> exists|j: int|
                0 <= j < self.input@.len() && !spec_line_ok(
                    old(inv).stacks@,
                    (#[trigger] self.input@[j]).0,
                    self.input@[j].1,
                ),
            forall|j: int|
                0 <= j < self.input@.len() ==> #[trigger] items::spec_count_of(
                    final(inv).stacks@,
                    self.input@[j].0,
                ) == items::spec_count_of(old(inv).stacks@, self.input@[j].0) - (if spec_line_ok(
                    old(inv).stacks@,
                    self.input@[j].0,
                    self.input@[j].1,
                ) {
                    self.input@[j].1 as int
                } else {
                    0
                }),
            items::spec_total_count(final(inv).stacks@) == items::spec_total_count(
                old(inv).stacks@,
            ) - spec_taken_sum(old(inv).stacks@, self.input@),
            spec_missing_complete(old(inv).stacks@, self.input@, r.1@),
            spec_missing_sound(old(inv).stacks@, self.input@, r.1@),
    {
        let ghost inv0 = inv.stacks@;
        let ghost lines = self.input@;
        let n = self.input.len();
        let mut missing: Vec<(Item, u64)> = Vec::new();
        // The line index each shortfall entry reports on.
        let ghost mut srcs: Seq<int> = Seq::empty();
        let mut any_fail = false;
        let mut i: usize = 0;
        while i < n
            invariant
                self.wf(),
                inv.wf(),
                inv.max_stacks == old(inv).max_stacks,
                n == lines.len(),
                lines == self.input@,
                inv0 == old(inv).stacks@,
                i <= n,
                forall|j: int|
                    0 <= j < n ==> #[trigger] items::spec_count_of(inv.stacks@, lines[j].0)
                        == items::spec_count_of(inv0, lines[j].0) - (if j < i && spec_line_ok(
                        inv0,
                        lines[j].0,
                        lines[j].1,
                    ) {
                        lines[j].1 as int
                    } else {
                        0
                    }),
                items::spec_total_count(inv.stacks@) == items::spec_total_count(inv0)
                    - spec_taken_sum(inv0, lines.take(i as int)),
                any_fail <==> exists|j: int|
                    0 <= j < i && !spec_line_ok(inv0, (#[trigger] lines[j]).0, lines[j].1),
                srcs.len() == missing@.len(),
                forall|k: int|
                    0 <= k < srcs.len() ==> 0 <= #[trigger] srcs[k] < i && spec_line_short(
                        inv0,
                        lines[srcs[k]].0,
                        lines[srcs[k]].1,
                    ) && spec_shortfall_of(
                        inv0,
                        lines[srcs[k]].0,
                        lines[srcs[k]].1,
                        missing@[k],
                    ),
                forall|j: int|
                    0 <= j < i && spec_line_short(inv0, (#[trigger] lines[j]).0, lines[j].1)
                        ==> srcs.contains(j),
            decreases n - i,
        {
            let line_item = self.input[i].0.duplicate();
            let count = self.input[i].1;
            proof {
                lemma_taken_sum_step(inv0, lines, i as int);
                items::lemma_count_of_eq(inv.stacks@, lines[i as int].0, line_item);
                items::lemma_count_of_eq(inv0, lines[i as int].0, line_item);
            }
            let ghost pre = inv.stacks@;
            let taken = inv.attempt_take(line_item, count);
            proof {
                assert forall|j: int|
                    0 <= j < n && j != i as int implies #[trigger] items::spec_count_of(
                    inv.stacks@,
                    lines[j].0,
                ) == items::spec_count_of(pre, lines[j].0) by {
                    assert(!lines[j].0.spec_eq(lines[i as int].0));
                }
                items::lemma_count_of_eq(inv.stacks@, lines[i as int].0, line_item);
            }
            match taken {
                Ok(_) => {},
                Err(items::Error::NotEnoughItems(it, short)) => {
                    let ghost pm = missing@;
                    missing.push((it, short));
                    any_fail = true;
                    proof {
                        assert(forall|k: int| 0 <= k < pm.len() ==> missing@[k] == pm[k]);
                        assert(missing@[pm.len() as int] == (it, short));
                        let wi = i as int;
                        assert(spec_line_short(inv0, lines[wi].0, lines[wi].1));
                        assert(spec_shortfall_of(
                            inv0,
                            lines[wi].0,
                            lines[wi].1,
                            missing@[pm.len() as int],
                        ));
                        let ghost old_srcs = srcs;
                        srcs = srcs.push(wi);
                        assert(srcs[old_srcs.len() as int] == wi);
                        assert forall|j: int|
                            0 <= j <= wi && spec_line_short(
                                inv0,
                                (#[trigger] lines[j]).0,
                                lines[j].1,
                            ) implies srcs.contains(j) by {
                            if j < wi {
                                let k = choose|k: int|
                                    0 <= k < old_srcs.len() && old_srcs[k] == j;
                                assert(srcs[k] == j);
                            } else {
                                assert(srcs[old_srcs.len() as int] == j);
                            }
                        }
                    }
                },
                Err(_) => {
                    any_fail = true;
                },
            }
            i = i + 1;
        }
        proof {
            assert(lines.take(n as int) =~= lines);
            assert(spec_missing_sound(inv0, lines, missing@)) by {
                assert forall|k: int|
                    0 <= k < missing@.len() implies spec_entry_is_shortfall(
                    inv0,
                    lines,
                    #[trigger] missing@[k],
                ) by {
                    let wj = srcs[k];
                    assert(0 <= wj < lines.len());
                    assert(spec_line_short(inv0, lines[wj].0, lines[wj].1));
                    assert(spec_shortfall_of(inv0, lines[wj].0, lines[wj].1, missing@[k]));
                }
            }
            assert(spec_missing_complete(inv0, lines, missing@)) by {
                assert forall|j: int|
                    0 <= j < lines.len() && spec_line_short(
                        inv0,
                        (#[trigger] lines[j]).0,
                        lines[j].1,
                    ) implies spec_line_reported(inv0, lines[j].0, lines[j].1, missing@) by {
                    assert(srcs.contains(j));
                    let k = choose|k: int| 0 <= k < srcs.len() && srcs[k] == j;
                    assert(spec_shortfall_of(inv0, lines[j].0, lines[j].1, missing@[k]));
                }
            }
        }
        (any_fail, missing)
    }

    /// Attempts the craft against `inv`.
    ///
    /// Succeeds exactly when every input line can be withdrawn from the
    /// inventory as it stood at the call; the outputs are then added, and
    /// whatever of them did not fit comes back.  Otherwise each line that
    /// was short is reported with its exact shortfall, and the lines that
    /// could be withdrawn stay consumed.
    #[verifier::rlimit(100)]
    #[verifier::spinoff_prover]
    pub fn attempt_craft(&self, inv: &mut Inventory) -> (r: Result<Option<Vec<Stack>>, Error>)
        requires
            self.wf(),
            old(inv).wf(),
        ensures
            final(inv).wf(),
            final(inv).max_stacks == old(inv).max_stacks,
            (r is Ok) <==> (forall|i: int|
                0 <= i < self.input@.len() ==> spec_line_ok(
                    old(inv).stacks@,
                    (#[trigger] self.input@[i]).0,
                    self.input@[i].1,
                )),
            r matches Ok(overflow) ==> ({
                let settled = items::spec_total_count(old(inv).stacks@) - spec_taken_sum(
                    old(inv).stacks@,
                    self.input@,
                ) + items::spec_total_count(self.output@);
                match overflow {
                    Some(ov) => ov@.len() > 0 && items::spec_total_count(final(inv).stacks@)
                        + items::spec_total_count(ov@) == settled,
                    None => items::spec_total_count(final(inv).stacks@) == settled,
                }
            }),
            r matches Ok(overflow) ==> forall|i: int|
                0 <= i < self.input@.len() && (forall|t: int|
                    0 <= t < self.output@.len() ==> !(#[trigger] self.output@[t]).item.spec_eq(
                        (#[trigger] self.input@[i]).0,
                    )) ==> items::spec_count_of(final(inv).stacks@, self.input@[i].0)
                    == items::spec_count_of(old(inv).stacks@, self.input@[i].0) - self.input@[i].1,
            r matches Err(e) ==> (e matches Error::MissingItems { missing, overflow }
                && spec_missing_complete(old(inv).stacks@, self.input@, missing@)),
            r matches Err(e) ==> (e matches Error::MissingItems { missing, overflow }
                && overflow is None && items::spec_total_count(final(inv).stacks@)
                == items::spec_total_count(old(inv).stacks@) - spec_taken_sum(
                old(inv).stacks@,
                self.input@,
            ) && spec_missing_sound(old(inv).stacks@, self.input@, missing@)),
    {
        let ghost inv0 = inv.stacks@;
        let ghost lines = self.input@;
        let (any_fail, missing) = self.take_lines(inv);
        if any_fail {
            return Err(Error::MissingItems { missing, overflow: None });
        }
        // Every line was withdrawn; add the outputs.
        let ghost outs0 = self.output@;
        let m = self.output.len();
        let mut outs: Vec<Stack> = Vec::new();
        let mut k: usize = 0;
        while k < m
            invariant
                m == outs0.len(),
                outs0 == self.output@,
                k <= m,
                outs@.len() == k,
                forall|t: int| 0 <= t < k ==> (#[trigger] outs@[t]).count == outs0[t].count,
                forall|t: int|
                    0 <= t < k ==> ((#[trigger] outs@[t]).item.spec_eq(outs0[t].item)
                        && outs0[t].item.spec_eq(outs@[t].item)),
            decreases m - k,
        {
            let s = self.output[k].duplicate();
            outs.push(s);
            k = k + 1;
        }
        proof {
            lemma_total_count_pointwise(outs@, outs0);
        }
        let ghost pre_add = inv.stacks@;
        let ghost outs_view = outs@;
        let overflow = inv.attempt_add(outs);
        proof {
            assert forall|i: int|
                0 <= i < lines.len() && (forall|t: int|
                    0 <= t < outs0.len() ==> !(#[trigger] outs0[t]).item.spec_eq(
                        (#[trigger] lines[i]).0,
                    )) implies items::spec_count_of(inv.stacks@, lines[i].0)
                == items::spec_count_of(inv0, lines[i].0) - lines[i].1 by {
                assert forall|t: int|
                    0 <= t < outs_view.len() implies !(#[trigger] outs_view[t]).item.spec_eq(
                    lines[i].0,
                ) by {
                    assert(outs_view[t].item.spec_eq(outs0[t].item));
                    assert(!outs0[t].item.spec_eq(lines[i].0));
                }
                assert(items::spec_count_of(inv.stacks@, lines[i].0) == items::spec_count_of(
                    pre_add,
                    lines[i].0,
                ));
            }
        }
        Ok(overflow)
    }
}

} // verus!
