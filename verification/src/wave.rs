//! Wave-budget spawn generation: a point budget per wave, spent on
//! randomly-picked affordable opponent templates placed uniformly inside the
//! encounter area.
//!
//! The budget for wave `n` is `2·n + 1` points.  Generation filters the
//! catalog to the templates already available at this wave whose cost the
//! wave's budget covers, then repeatedly picks one uniformly at random,
//! spends its cost and emits a spawn descriptor, until the budget is
//! exhausted or nothing is eligible.  Within that affordable set the loop
//! makes no attempt to avoid overshoot: the final pick may spend more than
//! the budget had left, but never more — the summed cost of all spawns but
//! the last stays strictly below the budget, and the whole sum reaches it.

use vstd::prelude::*;

use crate::enemy::Cfg as EnemyCfg;
use crate::geom::Vec2;
use crate::rng;

verus! {

/// One opponent to be realized by the instantiation service.
#[derive(Debug, Clone, Copy, PartialEq, Eq, Structural)]
pub struct Spawn {
    pub pos: Vec2,
    pub spawn_id: u64,
}

/// The immutable template catalog, ids being positions.
pub struct Cache {
    pub templates: Vec<EnemyCfg>,
}

impl Cache {
    /// Every template costs at least one point, which is what bounds the
    /// generation loop.
    pub open spec fn wf(self) -> bool {
        forall|i: int| 0 <= i < self.templates@.len() ==> #[trigger] self.templates@[i].value >= 1
    }

    /// Builds the catalog, rejecting a template set with a zero-cost entry:
    /// such an entry could absorb the whole budget without ever spending it.
    pub fn load(templates: Vec<EnemyCfg>) -> (r: Option<Cache>)
        ensures
            match r {
                Some(cache) => cache.templates == templates && cache.wf(),
                None => exists|i: int|
                    0 <= i < templates@.len() && #[trigger] templates@[i].value < 1,
            },
    {
        let mut i: usize = 0;
        while i < templates.len()
            invariant
                i <= templates@.len(),
                forall|j: int| 0 <= j < i ==> #[trigger] templates@[j].value >= 1,
            decreases templates@.len() - i,
        {
            if templates[i].value < 1 {
                return None;
            }
            i = i + 1;
        }
        Some(Cache { templates })
    }

    pub fn get_spawn(&self, id: u64) -> (r: Option<&EnemyCfg>)
        ensures
            id < self.templates@.len() ==> r == Some(&self.templates@[id as int]),
            id >= self.templates@.len() ==> r is None,
    {
        if id < self.templates.len() as u64 {
            Some(&self.templates[id as usize])
        } else {
            None
        }
    }

    /// Ids of the templates available at `wave`, in catalog order: the
    /// returned ids are strictly increasing, so the set for a later wave
    /// extends the set for an earlier one in the same order.
    pub fn available_units(&self, wave: u64) -> (r: Vec<u64>)
        ensures
            forall|j: int|
                0 <= j < r@.len() ==> #[trigger] r@[j] < self.templates@.len()
                    && self.templates@[r@[j] as int].available_from <= wave,
            forall|i: int|
                0 <= i < self.templates@.len() && #[trigger] self.templates@[i].available_from
                    <= wave ==> r@.contains(i as u64),
            forall|a: int, b: int| 0 <= a < b < r@.len() ==> #[trigger] r@[a] < #[trigger] r@[b],
    {
        let mut r: Vec<u64> = Vec::new();
        let mut i: usize = 0;
        while i < self.templates.len()
            invariant
                i <= self.templates@.len(),
                forall|j: int|
                    0 <= j < r@.len() ==> #[trigger] r@[j] < self.templates@.len()
                        && self.templates@[r@[j] as int].available_from <= wave,
                forall|k: int|
                    0 <= k < i && #[trigger] self.templates@[k].available_from <= wave
                        ==> r@.contains(k as u64),
                forall|j: int| 0 <= j < r@.len() ==> #[trigger] r@[j] < i,
                forall|a: int, b: int| 0 <= a < b < r@.len() ==> #[trigger] r@[a] < #[trigger] r@[b],
            decreases self.templates@.len() - i,
        {
            if self.templates[i].available_from <= wave {
                let ghost prev = r@;
                r.push(i as u64);
                proof {
                    assert forall|k: int|
                        0 <= k <= i && #[trigger] self.templates@[k].available_from
                            <= wave implies r@.contains(k as u64) by {
                        if k < i {
                            let idx = choose|idx: int|
                                0 <= idx < prev.len() && prev[idx] == k as u64;
                            assert(r@[idx] == k as u64);
                        } else {
                            assert(r@[prev.len() as int] == i as u64);
                        }
                    }
                }
            }
            i = i + 1;
        }
        r
    }
}

/// The point budget of wave index `wave`: exactly `2·wave + 1`.
pub open spec fn spec_budget(wave: u64) -> int {
    2 * wave + 1
}

/// Whether catalog entry `i` may be picked for wave index `wave`: it must
/// already be available and its cost must fit the wave's whole budget.
pub open spec fn spec_pickable(cache: Cache, wave: u64, i: int) -> bool {
    cache.templates@[i].available_from <= wave && cache.templates@[i].value <= spec_budget(wave)
}

/// Summed catalog cost of a list of spawn descriptors.
pub open spec fn spec_costs_sum(spawns: Seq<Spawn>, cache: Cache) -> int
    decreases spawns.len(),
{
    if spawns.len() == 0 {
        0
    } else {
        spec_costs_sum(spawns.drop_last(), cache) + cache.templates@[spawns.last().spawn_id as int].value
    }
}

/// One encounter wave, counted from zero.
#[derive(Debug, Clone, Copy, PartialEq, Eq, Structural)]
pub struct Wave {
    wave_num: u64,
}

impl Wave {
    pub closed spec fn index(self) -> u64 {
        self.wave_num
    }

    /// The very first wave.
    pub fn initial() -> (r: Self)
        ensures
            r.index() == 0,
    {
        Wave { wave_num: 0 }
    }

    /// The wave after this one.
    pub fn successor(self) -> (r: Self)
        requires
            self.index() < u64::MAX,
        ensures
            r.index() == self.index() + 1,
    {
        Wave { wave_num: self.wave_num + 1 }
    }

    /// The point budget of wave `n`: exactly `2·n + 1`.
    pub fn value(&self) -> (r: u64)
        requires
            2 * self.index() + 1 <= u64::MAX,
        ensures
            r == 2 * self.index() + 1,
    {
        let a = self.wave_num * 2;
        a + 1
    }

    /// The wave's one-based display number.
    pub fn num(&self) -> (r: u64)
        requires
            self.index() < u64::MAX,
        ensures
            r == self.index() + 1,
    {
        self.wave_num + 1
    }

    /// Spends this wave's budget on randomly picked eligible templates, each
    /// placed uniformly inside the rectangle at `pos` of size `dim`.
    ///
    /// A template is eligible when it is available at this wave and its cost
    /// does not exceed the wave's budget; the result is empty exactly when no
    /// template is eligible.  Each descriptor names an eligible template and
    /// a position inside the rectangle.  The picks exhaust the budget — the
    /// summed cost reaches it — while the summed cost of every descriptor
    /// but the last stays strictly below it: only the final pick may
    /// overshoot, and only by its own cost.
    pub fn generate_spawns(&self, cache: &Cache, pos: Vec2, dim: Vec2) -> (r: Vec<Spawn>)
        requires
            cache.wf(),
            2 * self.index() + 1 <= u64::MAX,
            pos.in_bounds(),
            dim.in_bounds(),
            dim.x >= 0,
            dim.y >= 0,
        ensures
            (r@.len() == 0) <==> (forall|i: int|
                0 <= i < cache.templates@.len() ==> !spec_pickable(*cache, self.index(), i)),
            forall|j: int|
                0 <= j < r@.len() ==> #[trigger] r@[j].spawn_id < cache.templates@.len()
                    && spec_pickable(*cache, self.index(), r@[j].spawn_id as int) && pos.x
                    <= r@[j].pos.x <= pos.x + dim.x && pos.y <= r@[j].pos.y <= pos.y + dim.y,
            r@.len() > 0 ==> spec_costs_sum(r@.drop_last(), *cache) < spec_budget(self.index()),
            r@.len() > 0 ==> spec_costs_sum(r@, *cache) >= spec_budget(self.index()),
    {
        let budget = self.value();
        // Eligibility: available at this wave, and affordable within the
        // wave's whole budget.
        let mut eligible: Vec<u64> = Vec::new();
        let tn = cache.templates.len();
        let mut i: usize = 0;
        while i < tn
            invariant
                tn == cache.templates@.len(),
                budget == spec_budget(self.index()),
                i <= tn,
                forall|j: int|
                    0 <= j < eligible@.len() ==> #[trigger] eligible@[j] < tn && spec_pickable(
                        *cache,
                        self.index(),
                        eligible@[j] as int,
                    ),
                forall|k: int|
                    0 <= k < i && spec_pickable(*cache, self.index(), k) ==> eligible@.contains(
                        k as u64,
                    ),
            decreases tn - i,
        {
            if cache.templates[i].available_from <= self.wave_num && cache.templates[i].value
                <= budget {
                let ghost prev = eligible@;
                eligible.push(i as u64);
                proof {
                    assert forall|k: int|
                        0 <= k <= i && spec_pickable(*cache, self.index(), k) implies eligible@.contains(
                        k as u64,
                    ) by {
                        if k < i {
                            let idx = choose|idx: int|
                                0 <= idx < prev.len() && prev[idx] == k as u64;
                            assert(eligible@[idx] == k as u64);
                        } else {
                            assert(eligible@[prev.len() as int] == i as u64);
                        }
                    }
                }
            }
            i = i + 1;
        }
        let mut spawns: Vec<Spawn> = Vec::new();
        if eligible.len() == 0 {
            proof {
                assert forall|i: int|
                    0 <= i < cache.templates@.len() implies !spec_pickable(
                    *cache,
                    self.index(),
                    i,
                ) by {
                    if spec_pickable(*cache, self.index(), i) {
                        assert(eligible@.contains(i as u64));
                    }
                }
            }
            return spawns;
        }
        let mut remaining = budget;
        while remaining > 0
            invariant
                cache.wf(),
                eligible@.len() > 0,
                pos.in_bounds(),
                dim.in_bounds(),
                dim.x >= 0,
                dim.y >= 0,
                budget == spec_budget(self.index()),
                forall|j: int|
                    0 <= j < eligible@.len() ==> #[trigger] eligible@[j]
                        < cache.templates@.len() && spec_pickable(
                        *cache,
                        self.index(),
                        eligible@[j] as int,
                    ),
                forall|j: int|
                    0 <= j < spawns@.len() ==> #[trigger] spawns@[j].spawn_id
                        < cache.templates@.len() && spec_pickable(
                        *cache,
                        self.index(),
                        spawns@[j].spawn_id as int,
                    ) && pos.x <= spawns@[j].pos.x <= pos.x + dim.x && pos.y <= spawns@[j].pos.y
                        <= pos.y + dim.y,
                remaining > 0 ==> spec_costs_sum(spawns@, *cache) + remaining == budget,
                spawns@.len() > 0 ==> spec_costs_sum(spawns@.drop_last(), *cache) < budget,
                remaining == 0 ==> spawns@.len() > 0 && spec_costs_sum(spawns@, *cache)
                    >= budget,
            decreases remaining,
        {
            let elen = eligible.len();
            let k = rng::sample_inclusive(0, (elen - 1) as u64) as usize;
            let id = eligible[k];
            let tlen = cache.templates.len();
            proof {
                assert(id < tlen as u64);
            }
            let cost = cache.templates[id as usize].value;
            let x = pos.x + rng::sample_inclusive(0, dim.x as u64) as i64;
            let y = pos.y + rng::sample_inclusive(0, dim.y as u64) as i64;
            let ghost prev = spawns@;
            spawns.push(Spawn { pos: Vec2 { x, y }, spawn_id: id });
            proof {
                assert(spawns@.drop_last() =~= prev);
            }
            if cost >= remaining {
                remaining = 0;
            } else {
                remaining = remaining - cost;
            }
        }
        proof {
            assert(spec_pickable(*cache, self.index(), eligible@[0] as int));
        }
        spawns
    }
}

} // verus!
