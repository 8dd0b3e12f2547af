//! Items, stacks of items, weighted drop tables and the inventory.
//!
//! A stack holds one kind of item up to the item category's stack limit;
//! merging pours one stack into another without creating or losing items.
//! Drop tables roll weighted-random rewards keyed to the wave number.  The
//! inventory keeps at most one stack per item kind.

use vstd::prelude::*;

use crate::rng;

verus! {

#[derive(Debug, Copy, Clone, PartialEq, Eq, Structural, Hash)]
pub enum Category {
    Raw,
    Unique,
    Ammo,
}

impl Category {
    pub open spec fn spec_max_in_stack(self) -> u64 {
        match self {
            Category::Raw => 999,
            Category::Unique => 1,
            Category::Ammo => 0,
        }
    }

    /// How many items of this category one stack can hold.
    pub fn max_in_stack(&self) -> (r: u64)
        ensures
            r == self.spec_max_in_stack(),
    {
        match self {
            Category::Raw => 999,
            Category::Unique => 1,
            Category::Ammo => 0,
        }
    }
}

#[derive(Debug, Clone)]
pub struct Item {
    pub category: Category,
    pub name: String,
    pub desc: String,
    pub can_use: bool,
}

impl Item {
    /// Two items are the same kind when every describing field agrees.
    pub open spec fn spec_eq(self, other: Item) -> bool {
        self.category == other.category && self.name@ == other.name@ && self.desc@ == other.desc@
            && self.can_use == other.can_use
    }

    /// A field-for-field copy whose kind compares equal to the original.
    pub fn duplicate(&self) -> (r: Item)
        ensures
            r.spec_eq(*self),
            self.spec_eq(r),
    {
        Item {
            category: self.category,
            name: self.name.clone(),
            desc: self.desc.clone(),
            can_use: self.can_use,
        }
    }

    pub fn same_item(&self, other: &Item) -> (r: bool)
        ensures
            r == self.spec_eq(*other),
    {
        self.category == other.category && self.name == other.name && self.desc == other.desc
            && self.can_use == other.can_use
    }
}

#[derive(Debug)]
pub enum Error {
    Full,
    MismatchedItem(Stack),
    MismatchedItemGroup(Vec<Stack>),
    TooManyItems(Item, u64),
    NotEnoughItems(Item, u64),
}

#[derive(Debug, Clone)]
pub struct Stack {
    pub item: Item,
    pub count: u64,
}

/// Summed count over a list of stacks.
pub open spec fn spec_total_count(stacks: Seq<Stack>) -> int
    decreases stacks.len(),
{
    if stacks.len() == 0 {
        0
    } else {
        spec_total_count(stacks.drop_last()) + stacks.last().count
    }
}

impl Stack {
    /// Whether this stack holds the given kind of item.
    pub fn is_composed_of(&self, item: &Item) -> (r: bool)
        ensures
            r == self.item.spec_eq(*item),
    {
        self.item.same_item(item)
    }

    /// A field-for-field copy holding the same kind and count.
    pub fn duplicate(&self) -> (r: Stack)
        ensures
            r.item.spec_eq(self.item),
            self.item.spec_eq(r.item),
            r.count == self.count,
    {
        Stack { item: self.item.duplicate(), count: self.count }
    }

    /// Whether the stack has reached its category's limit.
    pub fn is_full(&self) -> (r: bool)
        ensures
            r == (self.count >= self.item.category.spec_max_in_stack()),
    {
        self.count >= self.item.category.max_in_stack()
    }

    /// Pours `from` into `into` up to `into`'s stack limit.
    ///
    /// Mismatched item kinds refuse the merge and hand `from` back in the
    /// error.  Otherwise the overflow that did not fit comes back, and no
    /// item is created or lost: the two counts always sum to what they were.
    pub fn merge(into: &mut Stack, from: Stack) -> (r: Result<Option<Stack>, Error>)
        ensures
            final(into).item == old(into).item,
            !old(into).item.spec_eq(from.item) ==> (r matches Err(Error::MismatchedItem(back))
                && back == from && *final(into) == *old(into)),
            old(into).item.spec_eq(from.item) ==> ({
                let max = old(into).item.category.spec_max_in_stack();
                &&& (r matches Ok(back) && (final(into).count + (match back {
                    Some(b) => b.count as int,
                    None => 0int,
                }) == old(into).count + from.count))
                &&& (r matches Ok(back) ==> (match back {
                    Some(b) => b.item.spec_eq(from.item),
                    None => true,
                }))
                &&& (old(into).count >= max ==> (r matches Ok(back) && back == Some(from)
                    && *final(into) == *old(into)))
                &&& (old(into).count < max ==> final(into).count <= max)
                &&& (old(into).count < max && old(into).count + from.count <= max ==> (
                r matches Ok(back) && back is None && final(into).count == old(into).count
                    + from.count))
                &&& (old(into).count < max && old(into).count + from.count > max ==> (
                r matches Ok(back) && back matches Some(b) && final(into).count == max && b.count
                    == old(into).count + from.count - max))
            }),
    {
        if !into.item.same_item(&from.item) {
            return Err(Error::MismatchedItem(from));
        }
        if into.is_full() {
            return Ok(Some(from));
        }
        let mut from = from;
        let num_can_merge = into.item.category.max_in_stack() - into.count;
        if from.count <= num_can_merge {
            into.count = into.count + from.count;
            Ok(None)
        } else {
            into.count = into.count + num_can_merge;
            from.count = from.count - num_can_merge;
            Ok(Some(from))
        }
    }

    /// Sorts stacks into buckets, one bucket per item kind, keeping the
    /// order of first appearance.  Every stack lands in the bucket of its
    /// own item and no two buckets share an item kind.
    pub fn group_stacks(stacks: Vec<Self>) -> (r: Vec<(Item, Vec<Stack>)>)
        ensures
            forall|b: int, k: int|
                0 <= b < r@.len() && 0 <= k < r@[b].1@.len() ==> (#[trigger] r@[b].1@[k]).item.spec_eq(
                    r@[b].0,
                ),
            forall|b1: int, b2: int|
                0 <= b1 < b2 < r@.len() ==> !(#[trigger] r@[b1].0).spec_eq(#[trigger] r@[b2].0),
            spec_buckets_len(r@) == stacks@.len(),
    {
        let mut buckets: Vec<(Item, Vec<Stack>)> = Vec::new();
        let n = stacks.len();
        let mut stacks = stacks;
        let ghost all = stacks@;
        let mut i: usize = 0;
        while i < n
            invariant
                n == all.len(),
                stacks@ == all.skip(i as int),
                i <= n,
                forall|b: int, k: int|
                    0 <= b < buckets@.len() && 0 <= k < buckets@[b].1@.len() ==> (
                    #[trigger] buckets@[b].1@[k]).item.spec_eq(buckets@[b].0),
                forall|b1: int, b2: int|
                    0 <= b1 < b2 < buckets@.len() ==> !(#[trigger] buckets@[b1].0).spec_eq(
                        #[trigger] buckets@[b2].0,
                    ),
                spec_buckets_len(buckets@) == i,
            decreases n - i,
        {
            let stack = match stacks.remove(0) {
                s => s,
            };
            proof {
                assert(stacks@ =~= all.skip(i + 1));
            }
            let mut b: usize = 0;
            let mut found = false;
            while b < buckets.len() && !found
                invariant
                    b <= buckets@.len(),
                    !found ==> forall|j: int|
                        0 <= j < b ==> !(#[trigger] buckets@[j].0).spec_eq(stack.item),
                    found ==> b < buckets@.len() && buckets@[b as int].0.spec_eq(stack.item),
                decreases buckets@.len() - b, (if found { 0int } else { 1int }),
            {
                if buckets[b].0.same_item(&stack.item) {
                    found = true;
                } else {
                    b = b + 1;
                }
            }
            if found {
                let ghost pre = buckets@;
                buckets[b].1.push(stack);
                proof {
                    assert(buckets@ =~= pre.update(
                        b as int,
                        (pre[b as int].0, buckets@[b as int].1),
                    ));
                    assert(buckets@[b as int].1@ =~= pre[b as int].1@.push(stack));
                    lemma_buckets_len_update(pre, b as int, buckets@[b as int]);
                }
            } else {
                let ghost pre = buckets@;
                let key = stack.item.duplicate();
                let mut bucket: Vec<Stack> = Vec::new();
                bucket.push(stack);
                buckets.push((key, bucket));
                proof {
                    assert(buckets@.drop_last() =~= pre);
                    assert(buckets@.last().1@.len() == 1);
                }
            }
            i = i + 1;
        }
        buckets
    }

    /// Compacts a homogeneous pile of stacks by pouring trailing stacks into
    /// the earlier ones; a mixed pile is refused with the pile handed back.
    /// No item is created or lost: the summed count is preserved.
    pub fn collapse_stacks(stacks: Vec<Self>) -> (r: Result<Vec<Self>, Error>)
        ensures
            match r {
                Ok(out) => {
                    &&& spec_total_count(out@) == spec_total_count(stacks@)
                    &&& out@.len() <= stacks@.len()
                    &&& stacks@.len() == 0 ==> out@.len() == 0
                    &&& forall|j: int|
                        0 <= j < out@.len() ==> (#[trigger] out@[j]).item.spec_eq(stacks@[0].item)
                },
                Err(e) => e matches Error::MismatchedItemGroup(back) && back == stacks && (
                exists|j: int|
                    0 < j < stacks@.len() && !(#[trigger] stacks@[j]).item.spec_eq(
                        stacks@[0].item,
                    )),
            },
    {
        if stacks.len() == 0 {
            return Ok(stacks);
        }
        let ghost item0 = stacks@[0].item;
        {
            // The pile must be of one kind of item throughout.
            let mut j: usize = 1;
            while j < stacks.len()
                invariant
                    1 <= j <= stacks@.len(),
                    item0 == stacks@[0].item,
                    forall|k: int| 0 <= k < j ==> (#[trigger] stacks@[k]).item.spec_eq(item0),
                decreases stacks@.len() - j,
            {
                if !stacks[j].is_composed_of(&stacks[0].item) {
                    return Err(Error::MismatchedItemGroup(stacks));
                }
                j = j + 1;
            }
        }
        let ghost grand = spec_total_count(stacks@);
        let ghost orig_len = stacks@.len();
        let mut stacks = stacks;
        let mut done = false;
        while !done && stacks.len() > 0
            invariant
                stacks@.len() <= orig_len,
                forall|k: int|
                    0 <= k < stacks@.len() ==> (#[trigger] stacks@[k]).item.spec_eq(item0),
                spec_total_count(stacks@) == grand,
            decreases 2 * stacks@.len() + (if done { 0int } else { 1int }),
        {
            let trailing = match stacks.pop() {
                Some(t) => t,
                None => {
                    return Ok(stacks);
                },
            };
            proof {
                assert(spec_total_count(stacks@) + trailing.count == grand);
            }
            let mut t_opt: Option<Stack> = Some(trailing);
            let ghost inner_len = stacks@.len();
            let mut a: usize = 0;
            while a < stacks.len() && t_opt.is_some()
                invariant
                    stacks@.len() == inner_len,
                    inner_len < orig_len || (inner_len <= orig_len && orig_len > 0),
                    a <= stacks@.len(),
                    forall|k: int|
                        0 <= k < stacks@.len() ==> (#[trigger] stacks@[k]).item.spec_eq(item0),
                    spec_total_count(stacks@) + (match t_opt {
                        Some(t) => t.count as int,
                        None => 0int,
                    }) == grand,
                    t_opt matches Some(t) ==> t.item.spec_eq(item0),
                decreases stacks@.len() - a,
            {
                let t = match t_opt.take() {
                    Some(t) => t,
                    None => {
                        return Ok(stacks);
                    },
                };
                let ghost pre = stacks@;
                let ghost tcount = t.count;
                let merged = Stack::merge(&mut stacks[a], t);
                proof {
                    assert(stacks@ =~= pre.update(a as int, stacks@[a as int]));
                    lemma_total_count_update(pre, a as int, stacks@[a as int]);
                }
                match merged {
                    Ok(Some(rem)) => {
                        t_opt = Some(rem);
                    },
                    Ok(None) => {
                        t_opt = None;
                    },
                    Err(e) => {
                        return Err(e);
                    },
                }
                a = a + 1;
            }
            match t_opt {
                Some(rem) => {
                    let ghost pre = stacks@;
                    stacks.push(rem);
                    proof {
                        assert(stacks@.drop_last() =~= pre);
                    }
                    done = true;
                },
                None => {},
            }
        }
        Ok(stacks)
    }
}

/// Count held of `item`: the count of the first stack of that kind, or zero.
pub open spec fn spec_count_of(stacks: Seq<Stack>, item: Item) -> u64
    decreases stacks.len(),
{
    if stacks.len() == 0 {
        0u64
    } else if stacks.first().item.spec_eq(item) {
        stacks.first().count
    } else {
        spec_count_of(stacks.drop_first(), item)
    }
}

/// Whether some stack in the list holds the given kind of item.
pub open spec fn spec_has_kind(stacks: Seq<Stack>, item: Item) -> bool
    decreases stacks.len(),
{
    if stacks.len() == 0 {
        false
    } else if stacks.first().item.spec_eq(item) {
        true
    } else {
        spec_has_kind(stacks.drop_first(), item)
    }
}

/// How appending a stack moves the count of each kind: a kind already held
/// keeps its count, the pushed stack's kind starts at its count, every other
/// kind stays at zero.
proof fn lemma_count_of_push(stacks: Seq<Stack>, s: Stack, item: Item)
    ensures
        spec_has_kind(stacks, item) ==> spec_count_of(stacks.push(s), item) == spec_count_of(
            stacks,
            item,
        ),
        !spec_has_kind(stacks, item) && s.item.spec_eq(item) ==> spec_count_of(
            stacks.push(s),
            item,
        ) == s.count,
        !spec_has_kind(stacks, item) && !s.item.spec_eq(item) ==> spec_count_of(
            stacks.push(s),
            item,
        ) == 0,
        spec_has_kind(stacks.push(s), item) == (spec_has_kind(stacks, item) || s.item.spec_eq(
            item,
        )),
    decreases stacks.len(),
{
    let pushed = stacks.push(s);
    if stacks.len() == 0 {
        assert(pushed.first() == s);
        assert(pushed.drop_first() =~= Seq::<Stack>::empty());
        assert(!spec_has_kind(Seq::<Stack>::empty(), item));
        assert(spec_count_of(Seq::<Stack>::empty(), item) == 0);
        if s.item.spec_eq(item) {
            assert(spec_has_kind(pushed, item));
        } else {
            assert(spec_has_kind(pushed, item) == spec_has_kind(pushed.drop_first(), item));
        }
    } else {
        assert(pushed.first() == stacks.first());
        assert(pushed.drop_first() =~= stacks.drop_first().push(s));
        lemma_count_of_push(stacks.drop_first(), s, item);
        if stacks.first().item.spec_eq(item) {
            assert(spec_has_kind(stacks, item));
            assert(spec_has_kind(pushed, item));
        } else {
            assert(spec_has_kind(pushed, item) == spec_has_kind(pushed.drop_first(), item));
            assert(spec_has_kind(stacks, item) == spec_has_kind(stacks.drop_first(), item));
        }
    }
}

/// An update that keeps every stack's item in place keeps every kind's
/// presence.
proof fn lemma_has_kind_update_same_items(pre: Seq<Stack>, post: Seq<Stack>, item: Item)
    requires
        pre.len() == post.len(),
        forall|k: int| 0 <= k < pre.len() ==> (#[trigger] post[k]).item == pre[k].item,
    ensures
        spec_has_kind(post, item) == spec_has_kind(pre, item),
    decreases pre.len(),
{
    if pre.len() != 0 {
        assert(post.drop_first().len() == pre.drop_first().len());
        assert(forall|k: int|
            0 <= k < pre.drop_first().len() ==> (#[trigger] post.drop_first()[k]).item
                == pre.drop_first()[k].item);
        lemma_has_kind_update_same_items(pre.drop_first(), post.drop_first(), item);
    }
}

/// An item kind no stack holds has count zero.
proof fn lemma_count_of_absent(stacks: Seq<Stack>, item: Item)
    requires
        forall|j: int| 0 <= j < stacks.len() ==> !(#[trigger] stacks[j]).item.spec_eq(item),
    ensures
        spec_count_of(stacks, item) == 0,
    decreases stacks.len(),
{
    if stacks.len() != 0 {
        lemma_count_of_absent(stacks.drop_first(), item);
    }
}

/// A kind is held exactly when some index matches it.
proof fn lemma_has_kind_index(stacks: Seq<Stack>, item: Item)
    ensures
        spec_has_kind(stacks, item) <==> exists|k: int|
            0 <= k < stacks.len() && (#[trigger] stacks[k]).item.spec_eq(item),
    decreases stacks.len(),
{
    if stacks.len() != 0 {
        lemma_has_kind_index(stacks.drop_first(), item);
        if !stacks.first().item.spec_eq(item) && spec_has_kind(stacks, item) {
            let k = choose|k: int|
                0 <= k < stacks.drop_first().len() && (#[trigger] stacks.drop_first()[k]).item.spec_eq(
                    item,
                );
            assert(stacks[k + 1].item.spec_eq(item));
        }
        if exists|k: int| 0 <= k < stacks.len() && (#[trigger] stacks[k]).item.spec_eq(item) {
            let k = choose|k: int|
                0 <= k < stacks.len() && (#[trigger] stacks[k]).item.spec_eq(item);
            if k > 0 {
                assert(stacks.drop_first()[k - 1].item.spec_eq(item));
            }
        }
    }
}

/// The first stack of the kind is the one `spec_count_of` reads.
proof fn lemma_count_of_first_match(stacks: Seq<Stack>, item: Item, at: int)
    requires
        0 <= at < stacks.len(),
        stacks[at].item.spec_eq(item),
        forall|j: int| 0 <= j < at ==> !(#[trigger] stacks[j]).item.spec_eq(item),
    ensures
        spec_count_of(stacks, item) == stacks[at].count,
    decreases stacks.len(),
{
    if at > 0 {
        lemma_count_of_first_match(stacks.drop_first(), item, at - 1);
    }
}

/// Changing the count of the first stack of the kind moves `spec_count_of`
/// with it.
proof fn lemma_count_of_update(stacks: Seq<Stack>, item: Item, at: int, v: Stack)
    requires
        0 <= at < stacks.len(),
        stacks[at].item.spec_eq(item),
        v.item == stacks[at].item,
        forall|j: int| 0 <= j < at ==> !(#[trigger] stacks[j]).item.spec_eq(item),
    ensures
        spec_count_of(stacks.update(at, v), item) == v.count,
    decreases stacks.len(),
{
    let updated = stacks.update(at, v);
    if at == 0 {
        assert(updated.first() == v);
    } else {
        assert(updated.first() == stacks.first());
        assert(updated.drop_first() =~= stacks.drop_first().update(at - 1, v));
        lemma_count_of_update(stacks.drop_first(), item, at - 1, v);
    }
}

/// Counting is blind to which same-kind witness is asked about.
pub proof fn lemma_count_of_eq(stacks: Seq<Stack>, a: Item, b: Item)
    requires
        a.spec_eq(b),
    ensures
        spec_count_of(stacks, a) == spec_count_of(stacks, b),
    decreases stacks.len(),
{
    if stacks.len() != 0 {
        lemma_count_of_eq(stacks.drop_first(), a, b);
    }
}

/// Replacing a stack with one of the same kind leaves every other kind's
/// count unchanged.
proof fn lemma_count_of_update_other(stacks: Seq<Stack>, at: int, v: Stack, other: Item)
    requires
        0 <= at < stacks.len(),
        v.item == stacks[at].item,
        !stacks[at].item.spec_eq(other),
    ensures
        spec_count_of(stacks.update(at, v), other) == spec_count_of(stacks, other),
    decreases stacks.len(),
{
    let updated = stacks.update(at, v);
    if at == 0 {
        assert(updated.first() == v);
        assert(updated.drop_first() =~= stacks.drop_first());
    } else {
        assert(updated.first() == stacks.first());
        assert(updated.drop_first() =~= stacks.drop_first().update(at - 1, v));
        lemma_count_of_update_other(stacks.drop_first(), at - 1, v, other);
    }
}

/// The inventory: at most one stack per item kind.
pub struct Inventory {
    pub max_stacks: usize,
    pub stacks: Vec<Stack>,
}

impl Default for Inventory {
    fn default() -> (r: Self)
        ensures
            r.max_stacks == 0,
            r.stacks@ == Seq::<Stack>::empty(),
            r.wf(),
    {
        Inventory { max_stacks: 0, stacks: Vec::new() }
    }
}

impl Inventory {
    /// No two stacks hold the same kind of item.
    pub open spec fn wf(self) -> bool {
        forall|i: int, j: int|
            0 <= i < j < self.stacks@.len() ==> !(#[trigger] self.stacks@[i]).item.spec_eq(
                (#[trigger] self.stacks@[j]).item,
            )
    }

    /// How many of `item` the inventory holds.
    pub fn count_items(&self, item: &Item) -> (r: u64)
        ensures
            r == spec_count_of(self.stacks@, *item),
    {
        let ghost all = self.stacks@;
        let mut i: usize = 0;
        while i < self.stacks.len()
            invariant
                self.stacks@ == all,
                i <= all.len(),
                forall|j: int| 0 <= j < i ==> !(#[trigger] all[j]).item.spec_eq(*item),
            decreases all.len() - i,
        {
            if self.stacks[i].is_composed_of(item) {
                proof {
                    lemma_count_of_first_match(all, *item, i as int);
                }
                return self.stacks[i].count;
            }
            i = i + 1;
        }
        proof {
            lemma_count_of_absent(all, *item);
        }
        0
    }

    /// Adds the given stacks, merging each into the existing stack of its
    /// kind up to that stack's limit, or inserting it whole when the kind is
    /// absent; whatever did not fit comes back.  No item is created or lost,
    /// no kind's held count drops, kinds outside the given stacks are
    /// untouched, every given kind is held afterwards, and anything handed
    /// back overflowed a kind now filled to (or already beyond) its limit.
    pub fn attempt_add(&mut self, new_stacks: Vec<Stack>) -> (r: Option<Vec<Stack>>)
        requires
            old(self).wf(),
        ensures
            final(self).max_stacks == old(self).max_stacks,
            final(self).wf(),
            match r {
                Some(overflow) => overflow@.len() > 0 && spec_total_count(final(self).stacks@)
                    + spec_total_count(overflow@) == spec_total_count(old(self).stacks@)
                    + spec_total_count(new_stacks@),
                None => spec_total_count(final(self).stacks@) == spec_total_count(
                    old(self).stacks@,
                ) + spec_total_count(new_stacks@),
            },
            forall|it: Item|
                #[trigger] spec_count_of(final(self).stacks@, it) >= spec_count_of(
                    old(self).stacks@,
                    it,
                ),
            forall|it: Item|
                (forall|t: int|
                    0 <= t < new_stacks@.len() ==> !(#[trigger] new_stacks@[t]).item.spec_eq(it))
                    ==> #[trigger] spec_count_of(final(self).stacks@, it) == spec_count_of(
                    old(self).stacks@,
                    it,
                ),
            forall|t: int|
                0 <= t < new_stacks@.len() ==> spec_has_kind(
                    final(self).stacks@,
                    (#[trigger] new_stacks@[t]).item,
                ),
            r matches Some(overflow) ==> forall|k: int|
                0 <= k < overflow@.len() ==> #[trigger] spec_count_of(
                    final(self).stacks@,
                    overflow@[k].item,
                ) >= overflow@[k].item.category.spec_max_in_stack(),
    {
        let ghost incoming = new_stacks@;
        let ghost inv0 = self.stacks@;
        let mut new_stacks = new_stacks;
        let mut overflow: Vec<Stack> = Vec::new();
        let n = new_stacks.len();
        let mut i: usize = 0;
        while i < n
            invariant
                n == incoming.len(),
                new_stacks@ == incoming.skip(i as int),
                i <= n,
                self.wf(),
                self.max_stacks == old(self).max_stacks,
                inv0 == old(self).stacks@,
                spec_total_count(self.stacks@) + spec_total_count(overflow@) == spec_total_count(
                    inv0,
                ) + spec_total_count(incoming.take(i as int)),
                forall|it: Item|
                    #[trigger] spec_count_of(self.stacks@, it) >= spec_count_of(inv0, it),
                forall|it: Item|
                    (forall|t: int|
                        0 <= t < incoming.len() ==> !(#[trigger] incoming[t]).item.spec_eq(it))
                        ==> #[trigger] spec_count_of(self.stacks@, it) == spec_count_of(inv0, it),
                forall|t: int|
                    0 <= t < i ==> spec_has_kind(self.stacks@, (#[trigger] incoming[t]).item),
                forall|k: int|
                    0 <= k < overflow@.len() ==> #[trigger] spec_count_of(
                        self.stacks@,
                        overflow@[k].item,
                    ) >= overflow@[k].item.category.spec_max_in_stack(),
                forall|k: int|
                    0 <= k < overflow@.len() ==> spec_has_kind(
                        self.stacks@,
                        (#[trigger] overflow@[k]).item,
                    ),
            decreases n - i,
        {
            proof {
                assert(incoming.take(i + 1).drop_last() =~= incoming.take(i as int));
                assert(incoming.take(i + 1).last() == incoming[i as int]);
            }
            let new_stack = match new_stacks.remove(0) {
                s => s,
            };
            let ghost ns = new_stack;
            proof {
                assert(new_stacks@ =~= incoming.skip(i + 1));
            }
            let ghost pre = self.stacks@;
            let mut j: usize = 0;
            let mut found = false;
            while j < self.stacks.len() && !found
                invariant
                    self.stacks@ == pre,
                    new_stack == ns,
                    j <= pre.len(),
                    !found ==> forall|k: int|
                        0 <= k < j ==> !(#[trigger] pre[k]).item.spec_eq(ns.item),
                    found ==> j < pre.len() && pre[j as int].item.spec_eq(ns.item),
                decreases pre.len() - j, (if found { 0int } else { 1int }),
            {
                if self.stacks[j].is_composed_of(&new_stack.item) {
                    found = true;
                } else {
                    j = j + 1;
                }
            }
            if found {
                let merged = Stack::merge(&mut self.stacks[j], new_stack);
                proof {
                    assert(self.stacks@ =~= pre.update(j as int, self.stacks@[j as int]));
                    lemma_total_count_update(pre, j as int, self.stacks@[j as int]);
                    assert forall|a: int, b: int|
                        0 <= a < b < self.stacks@.len() implies !(#[trigger] self.stacks@[a]).item.spec_eq(
                        (#[trigger] self.stacks@[b]).item,
                    ) by {
                        assert(self.stacks@[a].item == pre[a].item);
                        assert(self.stacks@[b].item == pre[b].item);
                    }
                    // Only the matched kind's count moves, and only upward.
                    assert forall|it: Item| !pre[j as int].item.spec_eq(it) implies #[trigger] spec_count_of(
                        self.stacks@,
                        it,
                    ) == spec_count_of(pre, it) by {
                        lemma_count_of_update_other(pre, j as int, self.stacks@[j as int], it);
                    }
                    assert forall|it: Item| pre[j as int].item.spec_eq(it) implies #[trigger] spec_count_of(
                        self.stacks@,
                        it,
                    ) >= spec_count_of(pre, it) by {
                        lemma_count_of_update(pre, it, j as int, self.stacks@[j as int]);
                        lemma_count_of_first_match(pre, it, j as int);
                    }
                    // Every kind stays present.
                    assert forall|it: Item| spec_has_kind(self.stacks@, it) == spec_has_kind(
                        pre,
                        it,
                    ) by {
                        lemma_has_kind_update_same_items(pre, self.stacks@, it);
                    }
                    lemma_has_kind_index(pre, ns.item);
                }
                match merged {
                    Ok(Some(rem)) => {
                        proof {
                            // The kind that overflowed is now at or beyond
                            // its stack limit.
                            lemma_count_of_update(
                                pre,
                                pre[j as int].item,
                                j as int,
                                self.stacks@[j as int],
                            );
                            lemma_count_of_eq(self.stacks@, rem.item, pre[j as int].item);
                            assert(spec_count_of(self.stacks@, rem.item)
                                >= rem.item.category.spec_max_in_stack());
                            lemma_has_kind_index(self.stacks@, rem.item);
                        }
                        let ghost po = overflow@;
                        overflow.push(rem);
                        proof {
                            assert(overflow@.drop_last() =~= po);
                        }
                    },
                    Ok(None) => {},
                    Err(_) => {},
                }
            } else {
                self.stacks.push(new_stack);
                proof {
                    assert(self.stacks@.drop_last() =~= pre);
                    assert(self.stacks@ =~= pre.push(ns));
                    // The pushed kind was absent: it starts at the pushed
                    // count, and every other kind is untouched.
                    lemma_has_kind_index(pre, ns.item);
                    lemma_count_of_absent(pre, ns.item);
                    assert forall|it: Item| !ns.item.spec_eq(it) implies #[trigger] spec_count_of(
                        self.stacks@,
                        it,
                    ) == spec_count_of(pre, it) by {
                        lemma_count_of_push(pre, ns, it);
                        if !spec_has_kind(pre, it) {
                            lemma_has_kind_index(pre, it);
                            lemma_count_of_absent(pre, it);
                        }
                    }
                    assert forall|it: Item| ns.item.spec_eq(it) implies #[trigger] spec_count_of(
                        self.stacks@,
                        it,
                    ) >= spec_count_of(pre, it) by {
                        lemma_count_of_push(pre, ns, it);
                        if spec_has_kind(pre, it) {
                            lemma_has_kind_index(pre, it);
                            let k = choose|k: int|
                                0 <= k < pre.len() && (#[trigger] pre[k]).item.spec_eq(it);
                            assert(!pre[k].item.spec_eq(ns.item));
                        } else {
                            lemma_has_kind_index(pre, it);
                            lemma_count_of_absent(pre, it);
                        }
                    }
                    assert forall|it: Item| spec_has_kind(pre, it) implies spec_has_kind(
                        self.stacks@,
                        it,
                    ) by {
                        lemma_count_of_push(pre, ns, it);
                    }
                    assert(spec_has_kind(self.stacks@, ns.item)) by {
                        lemma_count_of_push(pre, ns, ns.item);
                    }
                }
            }
            i = i + 1;
        }
        proof {
            assert(incoming.take(n as int) =~= incoming);
        }
        if overflow.len() != 0 {
            Some(overflow)
        } else {
            None
        }
    }

    /// Withdraws `count` of `item`.
    ///
    /// Asking for more than one stack can ever hold, or for more than is
    /// held, fails with the excess named in the error and leaves the
    /// inventory unchanged.  Otherwise the held count drops by exactly
    /// `count`.
    pub fn attempt_take(&mut self, item: Item, count: u64) -> (r: Result<Stack, Error>)
        requires
            old(self).wf(),
        ensures
            final(self).max_stacks == old(self).max_stacks,
            final(self).wf(),
            ({
                let max = item.category.spec_max_in_stack();
                let held = spec_count_of(old(self).stacks@, item);
                &&& count > max ==> (r matches Err(Error::TooManyItems(it, over)) && it == item
                    && over == count - max && *final(self) == *old(self))
                &&& count <= max && count == 0 ==> (r matches Ok(s) && s.item == item && s.count
                    == 0 && *final(self) == *old(self))
                &&& count <= max && 0 < count && held < count ==> (r matches Err(
                    Error::NotEnoughItems(it, missing),
                ) && it == item && missing == count - held && *final(self) == *old(self))
                &&& count <= max && 0 < count <= held ==> (r matches Ok(s) && s.item == item
                    && s.count == 0 && spec_count_of(final(self).stacks@, item) == held - count
                    && spec_total_count(final(self).stacks@) == spec_total_count(
                    old(self).stacks@,
                ) - count)
                &&& forall|other: Item|
                    !other.spec_eq(item) ==> #[trigger] spec_count_of(final(self).stacks@, other)
                        == spec_count_of(old(self).stacks@, other)
            }),
    {
        let max = item.category.max_in_stack();
        if count > max {
            let overflow = count - max;
            return Err(Error::TooManyItems(item, overflow));
        }
        if count == 0 {
            return Ok(Stack { item, count: 0 });
        }
        let num_held = self.count_items(&item);
        if num_held < count {
            return Err(Error::NotEnoughItems(item, count - num_held));
        }
        let ghost pre = self.stacks@;
        let mut j: usize = 0;
        while j < self.stacks.len()
            invariant
                self.stacks@ == pre,
                pre == old(self).stacks@,
                self.max_stacks == old(self).max_stacks,
                old(self).wf(),
                1 <= count <= spec_count_of(pre, item),
                count <= item.category.spec_max_in_stack(),
                j <= pre.len(),
                forall|k: int| 0 <= k < j ==> !(#[trigger] pre[k]).item.spec_eq(item),
            decreases pre.len() - j,
        {
            if self.stacks[j].is_composed_of(&item) {
                proof {
                    lemma_count_of_first_match(pre, item, j as int);
                }
                let held = self.stacks[j].count;
                self.stacks[j].count = held - count;
                proof {
                    assert(self.stacks@ =~= pre.update(j as int, self.stacks@[j as int]));
                    lemma_count_of_update(pre, item, j as int, self.stacks@[j as int]);
                    lemma_total_count_update(pre, j as int, self.stacks@[j as int]);
                    assert forall|a: int, b: int|
                        0 <= a < b < self.stacks@.len() implies !(#[trigger] self.stacks@[a]).item.spec_eq(
                        (#[trigger] self.stacks@[b]).item,
                    ) by {
                        assert(self.stacks@[a].item == pre[a].item);
                        assert(self.stacks@[b].item == pre[b].item);
                    }
                    assert forall|other: Item|
                        !other.spec_eq(item) implies #[trigger] spec_count_of(self.stacks@, other)
                        == spec_count_of(pre, other) by {
                        lemma_count_of_update_other(
                            pre,
                            j as int,
                            self.stacks@[j as int],
                            other,
                        );
                    }
                }
                return Ok(Stack { item, count: 0 });
            }
            j = j + 1;
        }
        proof {
            lemma_count_of_absent(pre, item);
        }
        Err(Error::NotEnoughItems(item, count))
    }
}

/// One weighted reward: an item and the count range it drops, scaled by the
/// wave number.
#[derive(Debug)]
pub struct Drop {
    pub item: Item,
    pub range: (u64, u64),
}

/// The count bounds a drop rolls at `wave`: at least
/// `wave + range.0·(wave−1)` and strictly below `range.1·wave`.
pub open spec fn spec_drop_lo(d: Drop, wave: u64) -> int {
    wave + d.range.0 * (wave - 1)
}

pub open spec fn spec_drop_hi(d: Drop, wave: u64) -> int {
    d.range.1 * wave
}

/// A drop can be rolled at `wave` only when its count range is non-empty
/// and fits the machine.
pub open spec fn spec_drop_roll_wf(d: Drop, wave: u64) -> bool {
    1 <= wave && spec_drop_lo(d, wave) < spec_drop_hi(d, wave) <= u64::MAX
}

impl Drop {
    /// Rolls a stack of this drop's item with a count sampled from the
    /// wave-scaled range.
    pub fn generate_drop(&self, wave: u64) -> (r: Stack)
        requires
            spec_drop_roll_wf(*self, wave),
        ensures
            r.item.spec_eq(self.item),
            spec_drop_lo(*self, wave) <= r.count < spec_drop_hi(*self, wave),
    {
        let lo = wave + self.range.0 * (wave - 1);
        let hi = self.range.1 * wave;
        let count = rng::sample_inclusive(lo, hi - 1);
        Stack { item: self.item.duplicate(), count }
    }
}

/// Summed weight of a weighted drop list.
pub open spec fn spec_weights_sum(entries: Seq<(Drop, u64)>) -> int
    decreases entries.len(),
{
    if entries.len() == 0 {
        0
    } else {
        entries.first().1 + spec_weights_sum(entries.drop_first())
    }
}

proof fn lemma_weights_sum_nonneg(entries: Seq<(Drop, u64)>)
    ensures
        spec_weights_sum(entries) >= 0,
    decreases entries.len(),
{
    if entries.len() != 0 {
        lemma_weights_sum_nonneg(entries.drop_first());
    }
}

/// The weights of a prefix and of the matching suffix sum to the whole.
proof fn lemma_weights_sum_split(entries: Seq<(Drop, u64)>, i: int)
    requires
        0 <= i <= entries.len(),
    ensures
        spec_weights_sum(entries.take(i)) + spec_weights_sum(entries.skip(i)) == spec_weights_sum(
            entries,
        ),
    decreases i,
{
    if i == 0 {
        assert(entries.take(0) =~= Seq::<(Drop, u64)>::empty());
        assert(entries.skip(0) =~= entries);
    } else {
        assert(entries.take(i).first() == entries.first());
        assert(entries.take(i).drop_first() =~= entries.drop_first().take(i - 1));
        assert(entries.skip(i) =~= entries.drop_first().skip(i - 1));
        lemma_weights_sum_split(entries.drop_first(), i - 1);
    }
}

/// A group of weighted drops from which one is rolled at a time.
#[derive(Debug)]
pub struct DropGroup(pub Vec<(Drop, u64)>);

/// Every drop of the group can be rolled at `wave`, and the weights fit the
/// machine when summed.
pub open spec fn spec_group_roll_wf(g: DropGroup, wave: u64) -> bool {
    &&& forall|i: int|
        0 <= i < g.0@.len() ==> spec_drop_roll_wf((#[trigger] g.0@[i]).0, wave)
    &&& spec_weights_sum(g.0@) <= u64::MAX
}

impl DropGroup {
    /// Rolls one weighted-random drop of the group, or nothing when the
    /// group carries no weight at all.
    pub fn generate_drop(&self, wave: u64) -> (r: Option<Stack>)
        requires
            spec_group_roll_wf(*self, wave),
        ensures
            (r is None) <==> spec_weights_sum(self.0@) == 0,
            r matches Some(stack) ==> exists|i: int|
                0 <= i < self.0@.len() && stack.item.spec_eq((#[trigger] self.0@[i]).0.item)
                    && spec_drop_lo(self.0@[i].0, wave) <= stack.count < spec_drop_hi(
                    self.0@[i].0,
                    wave,
                ),
    {
        let ghost entries = self.0@;
        let n = self.0.len();
        let mut sum: u64 = 0;
        let mut i: usize = 0;
        while i < n
            invariant
                self.0@ == entries,
                n == entries.len(),
                i <= n,
                sum == spec_weights_sum(entries.take(i as int)),
                spec_weights_sum(entries) <= u64::MAX,
            decreases n - i,
        {
            proof {
                assert(entries.take(i + 1).drop_last() =~= entries.take(i as int));
                assert(entries.take(i + 1).last() == entries[i as int]);
                lemma_weights_take_step(entries, i as int);
                lemma_weights_sum_split(entries, i + 1);
                lemma_weights_sum_nonneg(entries.skip(i + 1));
            }
            sum = sum + self.0[i].1;
            i = i + 1;
        }
        proof {
            assert(entries.take(n as int) =~= entries);
        }
        if sum == 0 {
            return None;
        }
        let mut bucket = rng::sample_inclusive(0, sum - 1);
        let mut j: usize = 0;
        while j < n
            invariant
                self.0@ == entries,
                n == entries.len(),
                j <= n,
                spec_weights_sum(entries) != 0,
                bucket < spec_weights_sum(entries.skip(j as int)),
                forall|k: int|
                    0 <= k < entries.len() ==> spec_drop_roll_wf((#[trigger] entries[k]).0, wave),
            decreases n - j,
        {
            let chance = self.0[j].1;
            if bucket <= chance {
                let stack = self.0[j].0.generate_drop(wave);
                return Some(stack);
            }
            proof {
                assert(entries.skip(j as int).first() == entries[j as int]);
                assert(entries.skip(j as int).drop_first() =~= entries.skip(j + 1));
            }
            bucket = bucket - chance;
            j = j + 1;
        }
        proof {
            assert(entries.skip(n as int) =~= Seq::<(Drop, u64)>::empty());
        }
        None
    }
}

/// One step of the prefix weight sum.
proof fn lemma_weights_take_step(entries: Seq<(Drop, u64)>, i: int)
    requires
        0 <= i < entries.len(),
    ensures
        spec_weights_sum(entries.take(i + 1)) == spec_weights_sum(entries.take(i)) + entries[i].1,
    decreases i,
{
    if i == 0 {
        assert(entries.take(1).first() == entries[0]);
        assert(entries.take(1).drop_first() =~= Seq::<(Drop, u64)>::empty());
        assert(entries.take(0) =~= Seq::<(Drop, u64)>::empty());
    } else {
        assert(entries.take(i + 1).first() == entries.first());
        assert(entries.take(i + 1).drop_first() =~= entries.drop_first().take(i));
        assert(entries.take(i).first() == entries.first());
        assert(entries.take(i).drop_first() =~= entries.drop_first().take(i - 1));
        lemma_weights_take_step(entries.drop_first(), i - 1);
    }
}

/// Reward definitions keyed to a wave: each group rolls a fixed number of
/// times.
#[derive(Debug)]
pub struct DropTable(pub Vec<(DropGroup, u64)>);

/// Whether `stack` is an instance of some drop defined in `table`.
pub open spec fn spec_stack_from_table(table: Seq<(DropGroup, u64)>, stack: Stack) -> bool {
    exists|g: int, i: int|
        0 <= g < table.len() && 0 <= i < table[g].0.0@.len() && stack.item.spec_eq(
            (#[trigger] table[g].0.0@[i]).0.item,
        )
}

impl DropTable {
    /// Whether this table can be rolled at `wave`: exactly the rolls'
    /// precondition — the wave is at least one, every drop's count range is
    /// non-empty and representable, and every group's weights sum within the
    /// machine.
    pub fn rollable(&self, wave: u64) -> (r: bool)
        ensures
            r == (1 <= wave && forall|g: int|
                0 <= g < self.0@.len() ==> spec_group_roll_wf((#[trigger] self.0@[g]).0, wave)),
    {
        if wave < 1 {
            return false;
        }
        let gn = self.0.len();
        let mut g: usize = 0;
        while g < gn
            invariant
                1 <= wave,
                gn == self.0@.len(),
                g <= gn,
                forall|gg: int|
                    0 <= gg < g ==> spec_group_roll_wf((#[trigger] self.0@[gg]).0, wave),
            decreases gn - g,
        {
            let ghost entries = self.0@[g as int].0.0@;
            let dn = self.0[g].0.0.len();
            let mut sum: u64 = 0;
            let mut d: usize = 0;
            while d < dn
                invariant
                    1 <= wave,
                    g < gn,
                    gn == self.0@.len(),
                    dn == entries.len(),
                    entries == self.0@[g as int].0.0@,
                    d <= dn,
                    sum == spec_weights_sum(entries.take(d as int)),
                    forall|k: int|
                        0 <= k < d ==> spec_drop_roll_wf((#[trigger] entries[k]).0, wave),
                decreases dn - d,
            {
                let range = self.0[g].0.0[d].0.range;
                let lo = match range.0.checked_mul(wave - 1) {
                    Some(p) => match p.checked_add(wave) {
                        Some(lo) => lo,
                        None => {
                            return false;
                        },
                    },
                    None => {
                        return false;
                    },
                };
                let hi = match range.1.checked_mul(wave) {
                    Some(hi) => hi,
                    None => {
                        return false;
                    },
                };
                if lo >= hi {
                    return false;
                }
                proof {
                    lemma_weights_take_step(entries, d as int);
                }
                sum = match sum.checked_add(self.0[g].0.0[d].1) {
                    Some(s) => s,
                    None => {
                        proof {
                            lemma_weights_sum_split(entries, d + 1);
                            lemma_weights_sum_nonneg(entries.skip(d + 1));
                        }
                        return false;
                    },
                };
                d = d + 1;
            }
            proof {
                assert(entries.take(dn as int) =~= entries);
            }
            g = g + 1;
        }
        true
    }

    /// Rolls every group of the table its configured number of times and
    /// collects what dropped.  Every rolled stack is an instance of one of
    /// some group's drops.
    pub fn generate_drops(&self, wave: u64) -> (r: Vec<Stack>)
        requires
            forall|g: int|
                0 <= g < self.0@.len() ==> spec_group_roll_wf((#[trigger] self.0@[g]).0, wave),
        ensures
            forall|s: int|
                0 <= s < r@.len() ==> spec_stack_from_table(self.0@, #[trigger] r@[s]),
    {
        let mut r: Vec<Stack> = Vec::new();
        let n = self.0.len();
        let mut g: usize = 0;
        while g < n
            invariant
                n == self.0@.len(),
                g <= n,
                forall|gg: int|
                    0 <= gg < self.0@.len() ==> spec_group_roll_wf(
                        (#[trigger] self.0@[gg]).0,
                        wave,
                    ),
                forall|s: int|
                    0 <= s < r@.len() ==> spec_stack_from_table(self.0@, #[trigger] r@[s]),
            decreases n - g,
        {
            let count = self.0[g].1;
            let mut c: u64 = 0;
            while c < count
                invariant
                    n == self.0@.len(),
                    g < n,
                    c <= count,
                    forall|gg: int|
                        0 <= gg < self.0@.len() ==> spec_group_roll_wf(
                            (#[trigger] self.0@[gg]).0,
                            wave,
                        ),
                    forall|s: int|
                        0 <= s < r@.len() ==> exists|gg: int, i: int|
                            0 <= gg < self.0@.len() && 0 <= i < self.0@[gg].0.0@.len() && (
                            #[trigger] r@[s]).item.spec_eq(self.0@[gg].0.0@[i].0.item),
                decreases count - c,
            {
                let ghost grp = self.0@[g as int].0;
                if let Some(stack) = self.0[g].0.generate_drop(wave) {
                    let ghost pre = r@;
                    r.push(stack);
                    proof {
                        let i = choose|i: int|
                            0 <= i < grp.0@.len() && stack.item.spec_eq(
                                (#[trigger] grp.0@[i]).0.item,
                            ) && spec_drop_lo(grp.0@[i].0, wave) <= stack.count < spec_drop_hi(
                                grp.0@[i].0,
                                wave,
                            );
                        assert forall|s: int|
                            0 <= s < r@.len() implies spec_stack_from_table(
                            self.0@,
                            #[trigger] r@[s],
                        ) by {
                            if s < pre.len() {
                                assert(r@[s] == pre[s]);
                            } else {
                                assert(r@[s] == stack);
                                assert(0 <= g < self.0@.len() && 0 <= i
                                    < self.0@[g as int].0.0@.len() && r@[s].item.spec_eq(
                                    self.0@[g as int].0.0@[i].0.item,
                                ));
                            }
                        }
                    }
                }
                c = c + 1;
            }
            g = g + 1;
        }
        r
    }
}

/// Summed bucket sizes of a grouped stack list.
pub open spec fn spec_buckets_len(buckets: Seq<(Item, Vec<Stack>)>) -> int
    decreases buckets.len(),
{
    if buckets.len() == 0 {
        0
    } else {
        spec_buckets_len(buckets.drop_last()) + buckets.last().1@.len()
    }
}

/// Replacing one bucket changes the summed size by the size difference of
/// that bucket alone.
proof fn lemma_buckets_len_update(buckets: Seq<(Item, Vec<Stack>)>, i: int, v: (Item, Vec<Stack>))
    requires
        0 <= i < buckets.len(),
    ensures
        spec_buckets_len(buckets.update(i, v)) == spec_buckets_len(buckets) - buckets[i].1@.len()
            + v.1@.len(),
    decreases buckets.len(),
{
    let updated = buckets.update(i, v);
    if i == buckets.len() - 1 {
        assert(updated.drop_last() =~= buckets.drop_last());
    } else {
        assert(updated.drop_last() =~= buckets.drop_last().update(i, v));
        lemma_buckets_len_update(buckets.drop_last(), i, v);
        assert(updated.last() == buckets.last());
    }
}

/// Replacing one stack changes the summed count by the count difference of
/// that stack alone.
proof fn lemma_total_count_update(stacks: Seq<Stack>, i: int, v: Stack)
    requires
        0 <= i < stacks.len(),
    ensures
        spec_total_count(stacks.update(i, v)) == spec_total_count(stacks) - stacks[i].count
            + v.count,
    decreases stacks.len(),
{
    let updated = stacks.update(i, v);
    if i == stacks.len() - 1 {
        assert(updated.drop_last() =~= stacks.drop_last());
    } else {
        assert(updated.drop_last() =~= stacks.drop_last().update(i, v));
        lemma_total_count_update(stacks.drop_last(), i, v);
        assert(updated.last() == stacks.last());
    }
}

} // verus!
