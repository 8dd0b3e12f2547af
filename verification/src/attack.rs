//! One melee move: a timed hit volume with a damage value, a per-target hit
//! cap, and an optional successor move forming the combo chain.
//!
//! Executing the move opens three windows at once — hit, animation and
//! cooldown — that count down independently; the move is finished when all
//! three have closed.  Targets are identified by the host's opaque ids and
//! filtered by group membership, and no target is hit more often than the
//! configured maximum.

use vstd::prelude::*;

use crate::direction::Direction;
use crate::groups::Group;

verus! {

pub struct Cfg {
    /// Successor move id in the combo chain, if the chain continues.
    pub next_attack: Option<u64>,
    /// Damage dealt per registered hit.
    pub dmg: u64,
    /// Animation window in milliseconds.
    pub animation_duration: u64,
    /// Window in milliseconds during which the volume can register hits.
    pub hit_duration: u64,
    /// Cooldown window in milliseconds gating the combo chain.
    pub cooldown_duration: u64,
    /// Groups this move may hit.
    pub target: Vec<Group>,
    /// Most hits a single target can take from one execution.
    pub max_hits: u64,
}

impl Cfg {
    pub const HIT_DURATION: u64 = 300;

    pub const COOLDOWN_DURATION: u64 = 500;

    pub const ANIMATION_DURATION: u64 = 500;

    pub const DMG: u64 = 10;

    pub const MAX_HITS: u64 = 1;
}

impl Default for Cfg {
    fn default() -> (r: Self)
        ensures
            r.next_attack is None,
            r.dmg == Cfg::DMG,
            r.animation_duration == Cfg::ANIMATION_DURATION,
            r.hit_duration == Cfg::HIT_DURATION,
            r.cooldown_duration == Cfg::COOLDOWN_DURATION,
            r.target@ == seq![Group::Enemy],
            r.max_hits == Cfg::MAX_HITS,
    {
        let mut target: Vec<Group> = Vec::new();
        target.push(Group::Enemy);
        proof {
            assert(target@ =~= seq![Group::Enemy]);
        }
        Cfg {
            next_attack: None,
            dmg: Self::DMG,
            animation_duration: Self::ANIMATION_DURATION,
            hit_duration: Self::HIT_DURATION,
            cooldown_duration: Self::COOLDOWN_DURATION,
            target,
            max_hits: Self::MAX_HITS,
        }
    }
}

/// Recorded hits against `id` in a hit-count list: the count attached to the
/// first entry carrying `id`, or zero when no entry does.
pub open spec fn spec_hits_of(counts: Seq<(u64, u64)>, id: u64) -> u64
    decreases counts.len(),
{
    if counts.len() == 0 {
        0u64
    } else if counts.first().0 == id {
        counts.first().1
    } else {
        spec_hits_of(counts.drop_first(), id)
    }
}

/// An id that appears nowhere in the list has no recorded hits.
proof fn lemma_hits_of_absent(counts: Seq<(u64, u64)>, id: u64)
    requires
        forall|j: int| 0 <= j < counts.len() ==> counts[j].0 != id,
    ensures
        spec_hits_of(counts, id) == 0,
    decreases counts.len(),
{
    if counts.len() != 0 {
        lemma_hits_of_absent(counts.drop_first(), id);
    }
}

/// The first entry carrying `id` is the one `spec_hits_of` reads.
proof fn lemma_hits_of_first_match(counts: Seq<(u64, u64)>, id: u64, at: int)
    requires
        0 <= at < counts.len(),
        counts[at].0 == id,
        forall|j: int| 0 <= j < at ==> counts[j].0 != id,
    ensures
        spec_hits_of(counts, id) == counts[at].1,
    decreases counts.len(),
{
    if at > 0 {
        lemma_hits_of_first_match(counts.drop_first(), id, at - 1);
    }
}

/// Appending an entry for an id that was absent sets its count and leaves
/// every other id's count unchanged.
proof fn lemma_hits_of_push(counts: Seq<(u64, u64)>, id: u64, n: u64)
    requires
        forall|j: int| 0 <= j < counts.len() ==> counts[j].0 != id,
    ensures
        spec_hits_of(counts.push((id, n)), id) == n,
        forall|other: u64|
            other != id ==> spec_hits_of(counts.push((id, n)), other) == spec_hits_of(
                counts,
                other,
            ),
    decreases counts.len(),
{
    let pushed = counts.push((id, n));
    if counts.len() == 0 {
        assert(pushed.first() == (id, n));
        assert forall|other: u64| other != id implies spec_hits_of(pushed, other)
            == spec_hits_of(counts, other) by {
            assert(pushed.drop_first() =~= Seq::<(u64, u64)>::empty());
            assert(spec_hits_of(pushed, other) == spec_hits_of(pushed.drop_first(), other));
        }
    } else {
        assert(pushed.first() == counts.first());
        assert(pushed.drop_first() =~= counts.drop_first().push((id, n)));
        lemma_hits_of_push(counts.drop_first(), id, n);
        assert forall|other: u64| other != id implies spec_hits_of(pushed, other)
            == spec_hits_of(counts, other) by {
            if counts.first().0 != other {
                assert(spec_hits_of(pushed, other) == spec_hits_of(pushed.drop_first(), other));
                assert(spec_hits_of(counts, other) == spec_hits_of(counts.drop_first(), other));
            }
        }
    }
}

/// Bumping the first entry that carries `id` updates its count and leaves
/// every other id's count unchanged.
proof fn lemma_hits_of_update(counts: Seq<(u64, u64)>, id: u64, at: int, n: u64)
    requires
        0 <= at < counts.len(),
        counts[at].0 == id,
        forall|j: int| 0 <= j < at ==> counts[j].0 != id,
    ensures
        spec_hits_of(counts.update(at, (id, n)), id) == n,
        forall|other: u64|
            other != id ==> spec_hits_of(counts.update(at, (id, n)), other) == spec_hits_of(
                counts,
                other,
            ),
    decreases counts.len(),
{
    let updated = counts.update(at, (id, n));
    if at == 0 {
        assert(updated.first() == (id, n));
        assert forall|other: u64| other != id implies spec_hits_of(updated, other)
            == spec_hits_of(counts, other) by {
            assert(updated.drop_first() =~= counts.drop_first());
            assert(spec_hits_of(updated, other) == spec_hits_of(updated.drop_first(), other));
        }
    } else {
        assert(updated.first() == counts.first());
        assert(updated.drop_first() =~= counts.drop_first().update(at - 1, (id, n)));
        lemma_hits_of_update(counts.drop_first(), id, at - 1, n);
        assert forall|other: u64| other != id implies spec_hits_of(updated, other)
            == spec_hits_of(counts, other) by {
            if counts.first().0 != other {
                assert(spec_hits_of(updated, other) == spec_hits_of(updated.drop_first(), other));
                assert(spec_hits_of(counts, other) == spec_hits_of(counts.drop_first(), other));
            }
        }
    }
}

pub struct Data {
    pub remaining_cooldown_duration: u64,
    pub remaining_animating_duration: u64,
    pub remaining_hit_duration: u64,
    /// How often each target id has been hit by this execution; one entry
    /// per target.
    pub hit_counts: Vec<(u64, u64)>,
}

impl Data {
    /// Recorded hits against one target id (zero when never hit).
    pub open spec fn hits_of(self, id: u64) -> u64 {
        spec_hits_of(self.hit_counts@, id)
    }

    pub open spec fn is_finished_spec(self) -> bool {
        self.remaining_cooldown_duration == 0 && self.remaining_animating_duration == 0
            && self.remaining_hit_duration == 0
    }

    pub fn is_finished(&self) -> (r: bool)
        ensures
            r == self.is_finished_spec(),
    {
        self.remaining_cooldown_duration == 0 && self.remaining_animating_duration == 0
            && self.remaining_hit_duration == 0
    }

    /// Counts all three windows down, each clamped at zero.
    pub fn step_time(&mut self, delta: u64)
        ensures
            final(self).hit_counts == old(self).hit_counts,
            final(self).remaining_hit_duration == if old(self).remaining_hit_duration > delta {
                (old(self).remaining_hit_duration - delta) as u64
            } else {
                0u64
            },
            final(self).remaining_cooldown_duration == if old(self).remaining_cooldown_duration
                > delta {
                (old(self).remaining_cooldown_duration - delta) as u64
            } else {
                0u64
            },
            final(self).remaining_animating_duration == if old(self).remaining_animating_duration
                > delta {
                (old(self).remaining_animating_duration - delta) as u64
            } else {
                0u64
            },
    {
        if self.remaining_hit_duration > delta {
            self.remaining_hit_duration = self.remaining_hit_duration - delta;
        } else {
            self.remaining_hit_duration = 0;
        }
        if self.remaining_cooldown_duration > delta {
            self.remaining_cooldown_duration = self.remaining_cooldown_duration - delta;
        } else {
            self.remaining_cooldown_duration = 0;
        }
        if self.remaining_animating_duration > delta {
            self.remaining_animating_duration = self.remaining_animating_duration - delta;
        } else {
            self.remaining_animating_duration = 0;
        }
    }

    /// Whether the hit window is still open.
    pub fn can_hit(&self) -> (r: bool)
        ensures
            r == (self.remaining_hit_duration != 0),
    {
        self.remaining_hit_duration != 0
    }

    /// Records one more hit against `id`.
    pub fn add_hit_count(&mut self, id: u64)
        requires
            old(self).hits_of(id) < u64::MAX,
        ensures
            final(self).remaining_cooldown_duration == old(self).remaining_cooldown_duration,
            final(self).remaining_animating_duration == old(self).remaining_animating_duration,
            final(self).remaining_hit_duration == old(self).remaining_hit_duration,
            final(self).hits_of(id) == old(self).hits_of(id) + 1,
            forall|other: u64|
                other != id ==> final(self).hits_of(other) == old(self).hits_of(other),
    {
        let ghost pre = self.hit_counts@;
        let mut i: usize = 0;
        while i < self.hit_counts.len()
            invariant
                self.hit_counts@ == pre,
                self.remaining_cooldown_duration == old(self).remaining_cooldown_duration,
                self.remaining_animating_duration == old(self).remaining_animating_duration,
                self.remaining_hit_duration == old(self).remaining_hit_duration,
                old(self).hits_of(id) < u64::MAX,
                pre == old(self).hit_counts@,
                i <= pre.len(),
                forall|j: int| 0 <= j < i ==> pre[j].0 != id,
            decreases pre.len() - i,
        {
            if self.hit_counts[i].0 == id {
                let hits = self.hit_counts[i].1;
                proof {
                    lemma_hits_of_first_match(pre, id, i as int);
                }
                self.hit_counts[i] = (id, hits + 1);
                proof {
                    lemma_hits_of_update(pre, id, i as int, (hits + 1) as u64);
                }
                return ;
            }
            i = i + 1;
        }
        proof {
            lemma_hits_of_absent(pre, id);
            lemma_hits_of_push(pre, id, 1);
        }
        self.hit_counts.push((id, 1));
    }
}

pub struct Attack {
    pub cfg: Cfg,
    pub data: Option<Data>,
}

impl Default for Attack {
    fn default() -> (r: Self)
        ensures
            r.data is None,
            r.cfg.next_attack is None,
            r.cfg.dmg == Cfg::DMG,
            r.cfg.animation_duration == Cfg::ANIMATION_DURATION,
            r.cfg.hit_duration == Cfg::HIT_DURATION,
            r.cfg.cooldown_duration == Cfg::COOLDOWN_DURATION,
            r.cfg.target@ == seq![Group::Enemy],
            r.cfg.max_hits == Cfg::MAX_HITS,
    {
        Attack { cfg: Default::default(), data: None }
    }
}

impl Attack {
    /// Whether `target_groups` (the groups a body belongs to) intersect the
    /// groups this move may hit.
    pub open spec fn spec_in_target_groups(self, target_groups: Seq<Group>) -> bool {
        exists|i: int, j: int|
            0 <= i < target_groups.len() && 0 <= j < self.cfg.target@.len() && target_groups[i]
                == self.cfg.target@[j]
    }

    pub fn is_in_target_groups(&self, target_groups: &Vec<Group>) -> (r: bool)
        ensures
            r == self.spec_in_target_groups(target_groups@),
    {
        let mut i: usize = 0;
        while i < target_groups.len()
            invariant
                i <= target_groups@.len(),
                !(exists|bi: int, j: int|
                    0 <= bi < i && 0 <= j < self.cfg.target@.len() && target_groups@[bi]
                        == self.cfg.target@[j]),
            decreases target_groups@.len() - i,
        {
            let mut j: usize = 0;
            while j < self.cfg.target.len()
                invariant
                    i < target_groups@.len(),
                    j <= self.cfg.target@.len(),
                    forall|k: int| 0 <= k < j ==> target_groups@[i as int] != self.cfg.target@[k],
                decreases self.cfg.target@.len() - j,
            {
                if target_groups[i] == self.cfg.target[j] {
                    return true;
                }
                j = j + 1;
            }
            i = i + 1;
        }
        false
    }

    /// Whether `id` is still below this execution's per-target hit cap.
    pub fn is_hit_less_than_max(&self, id: u64) -> (r: bool)
        ensures
            r == match self.data {
                Some(d) => d.hits_of(id) == 0 || d.hits_of(id) < self.cfg.max_hits,
                None => true,
            },
    {
        let data = match self.data.as_ref() {
            Some(data) => data,
            None => {
                return true;
            },
        };
        let ghost counts = data.hit_counts@;
        let mut i: usize = 0;
        while i < data.hit_counts.len()
            invariant
                self.data == Some(*data),
                data.hit_counts@ == counts,
                i <= counts.len(),
                forall|j: int| 0 <= j < i ==> counts[j].0 != id,
            decreases counts.len() - i,
        {
            if data.hit_counts[i].0 == id {
                proof {
                    lemma_hits_of_first_match(counts, id, i as int);
                }
                let hits = data.hit_counts[i].1;
                return hits == 0 || hits < self.cfg.max_hits;
            }
            i = i + 1;
        }
        proof {
            lemma_hits_of_absent(counts, id);
        }
        true
    }

    /// Whether this move may hit the body `id` belonging to `target_groups`
    /// right now: the hit window must be open, the body must be in a targeted
    /// group, and the per-target cap must not be exhausted.
    pub fn can_hit(&self, id: u64, target_groups: &Vec<Group>) -> (r: bool)
        ensures
            r == match self.data {
                Some(d) => d.remaining_hit_duration != 0 && self.spec_in_target_groups(
                    target_groups@,
                ) && (d.hits_of(id) == 0 || d.hits_of(id) < self.cfg.max_hits),
                None => false,
            },
    {
        let has_window = match self.data.as_ref() {
            Some(data) => data.remaining_hit_duration != 0,
            None => false,
        };
        if !has_window {
            return false;
        }
        self.is_in_target_groups(target_groups) && self.is_hit_less_than_max(id)
    }

    /// Starts the move swinging towards `dir`.  A direction with no angle
    /// (neutral) opens only the cooldown window: the move gates the combo
    /// but neither animates nor hits.
    pub fn execute(&mut self, dir: Direction)
        ensures
            final(self).cfg == old(self).cfg,
            final(self).data matches Some(d) && d.hit_counts@ == Seq::<(u64, u64)>::empty()
                && d.remaining_cooldown_duration == old(self).cfg.cooldown_duration
                && d.remaining_animating_duration == (if dir != Direction::Neutral {
                old(self).cfg.animation_duration
            } else {
                0u64
            }) && d.remaining_hit_duration == (if dir != Direction::Neutral {
                old(self).cfg.hit_duration
            } else {
                0u64
            }),
    {
        if !matches!(dir, Direction::Neutral) {
            self.data = Some(
                Data {
                    remaining_cooldown_duration: self.cfg.cooldown_duration,
                    remaining_animating_duration: self.cfg.animation_duration,
                    remaining_hit_duration: self.cfg.hit_duration,
                    hit_counts: Vec::new(),
                },
            );
        } else {
            self.data = Some(
                Data {
                    remaining_cooldown_duration: self.cfg.cooldown_duration,
                    remaining_animating_duration: 0,
                    remaining_hit_duration: 0,
                    hit_counts: Vec::new(),
                },
            );
        }
    }

    /// One physics frame of the swinging hit volume: every overlapping body
    /// the move may still hit takes one recorded hit, then the windows
    /// advance by `delta` and a finished move clears.  Returns the
    /// `(target id, damage)` pairs to deliver, one per body hit, each body
    /// being in a targeted group.
    pub fn process_bodies(&mut self, delta: u64, bodies: &Vec<(u64, Vec<Group>)>) -> (r: Vec<
        (u64, u64),
    >)
        ensures
            final(self).cfg == old(self).cfg,
            old(self).data is None ==> final(self).data is None && r@.len() == 0,
            r@.len() <= bodies@.len(),
            forall|k: int|
                0 <= k < r@.len() ==> (#[trigger] r@[k]).1 == old(self).cfg.dmg && exists|b: int|
                    0 <= b < bodies@.len() && (#[trigger] bodies@[b]).0 == r@[k].0 && old(
                        self,
                    ).spec_in_target_groups(bodies@[b].1@),
            old(self).data matches Some(d) ==> ({
                let hit = if d.remaining_hit_duration > delta {
                    (d.remaining_hit_duration - delta) as u64
                } else {
                    0u64
                };
                let cool = if d.remaining_cooldown_duration > delta {
                    (d.remaining_cooldown_duration - delta) as u64
                } else {
                    0u64
                };
                let anim = if d.remaining_animating_duration > delta {
                    (d.remaining_animating_duration - delta) as u64
                } else {
                    0u64
                };
                if hit == 0 && cool == 0 && anim == 0 {
                    final(self).data is None
                } else {
                    final(self).data matches Some(nd) && nd.remaining_hit_duration == hit
                        && nd.remaining_cooldown_duration == cool
                        && nd.remaining_animating_duration == anim
                }
            }),
    {
        let mut r: Vec<(u64, u64)> = Vec::new();
        if self.data.is_none() {
            return r;
        }
        let ghost d0 = old(self).data->Some_0;
        let n = bodies.len();
        let mut b: usize = 0;
        while b < n
            invariant
                n == bodies@.len(),
                b <= n,
                r@.len() <= b,
                self.cfg == old(self).cfg,
                old(self).data matches Some(od) && self.data matches Some(nd)
                    && nd.remaining_hit_duration == od.remaining_hit_duration
                    && nd.remaining_cooldown_duration == od.remaining_cooldown_duration
                    && nd.remaining_animating_duration == od.remaining_animating_duration,
                forall|k: int|
                    0 <= k < r@.len() ==> (#[trigger] r@[k]).1 == old(self).cfg.dmg && exists|
                        bb: int,
                    |
                        0 <= bb < bodies@.len() && (#[trigger] bodies@[bb]).0 == r@[k].0 && old(
                            self,
                        ).spec_in_target_groups(bodies@[bb].1@),
            decreases n - b,
        {
            let (id, groups) = &bodies[b];
            let id = *id;
            if self.can_hit(id, groups) {
                if let Some(data) = self.data.as_mut() {
                    data.add_hit_count(id);
                }
                let ghost pr = r@;
                r.push((id, self.cfg.dmg));
                proof {
                    assert forall|k: int|
                        0 <= k < r@.len() implies (#[trigger] r@[k]).1 == old(self).cfg.dmg
                        && exists|bb: int|
                        0 <= bb < bodies@.len() && (#[trigger] bodies@[bb]).0 == r@[k].0 && old(
                            self,
                        ).spec_in_target_groups(bodies@[bb].1@) by {
                        if k < pr.len() {
                            assert(r@[k] == pr[k]);
                        } else {
                            assert(r@[k] == (id, old(self).cfg.dmg));
                            assert(bodies@[b as int].0 == id && old(
                                self,
                            ).spec_in_target_groups(bodies@[b as int].1@));
                        }
                    }
                }
            }
            b = b + 1;
        }
        let mut finished = false;
        if let Some(data) = self.data.as_mut() {
            data.step_time(delta);
            finished = data.is_finished();
        }
        if finished {
            self.data = None;
        }
        r
    }

    /// Cancels the hit volume immediately.
    pub fn reset(&mut self)
        ensures
            final(self).cfg == old(self).cfg,
            final(self).data is None,
    {
        self.data = None;
    }

    pub fn next_attack(&self) -> (r: Option<u64>)
        ensures
            r == self.cfg.next_attack,
    {
        self.cfg.next_attack
    }

    pub fn cooldown(&self) -> (r: u64)
        ensures
            r == self.cfg.cooldown_duration,
    {
        self.cfg.cooldown_duration
    }
}

} // verus!
