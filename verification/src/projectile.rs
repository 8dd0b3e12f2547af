//! Projectile flight rules: who a projectile hurts, and whether a charged
//! projectile bounces off an obstacle or is spent.
//!
//! A projectile hurts bodies in the enemy or switch groups.  The plain
//! projectile is spent on its first collision.  The charged variant keeps a
//! bounce allowance: an obstacle outside the hurt groups reflects it while
//! the allowance lasts, one bounce per collision; anything else spends it.

use vstd::prelude::*;

use crate::groups::Group;

verus! {

pub struct Cfg {
    /// Flight speed, in world units per second.
    pub velocity: u64,
    /// Bounce allowance granted to a charged projectile.
    pub max_bounces: u64,
}

impl Cfg {
    pub const VELOCITY: u64 = 10;

    pub const MAX_BOUNCES: u64 = 0;
}

impl Default for Cfg {
    fn default() -> (r: Self)
        ensures
            r == (Cfg { velocity: Cfg::VELOCITY, max_bounces: Cfg::MAX_BOUNCES }),
    {
        Cfg { velocity: Self::VELOCITY, max_bounces: Self::MAX_BOUNCES }
    }
}

/// Whether a body with these groups is one a projectile hurts.
pub open spec fn spec_is_hurt_target(groups: Seq<Group>) -> bool {
    exists|i: int|
        0 <= i < groups.len() && ((#[trigger] groups[i]) == Group::Enemy || groups[i]
            == Group::Switch)
}

/// Exec check for [`spec_is_hurt_target`].
pub fn is_hurt_target(groups: &Vec<Group>) -> (r: bool)
    ensures
        r == spec_is_hurt_target(groups@),
{
    let mut i: usize = 0;
    while i < groups.len()
        invariant
            i <= groups@.len(),
            !(exists|j: int|
                0 <= j < i && ((#[trigger] groups@[j]) == Group::Enemy || groups@[j]
                    == Group::Switch)),
        decreases groups@.len() - i,
    {
        if matches!(groups[i], Group::Enemy | Group::Switch) {
            return true;
        }
        i = i + 1;
    }
    false
}

/// What a collision does to the projectile itself.
#[derive(Debug, Clone, Copy, PartialEq, Eq, Structural)]
pub enum CollisionAction {
    /// Reflect off the obstacle and keep flying.
    Bounce,
    /// The projectile is spent and despawns.
    Despawn,
}

/// The plain projectile: spent on its first collision, hurting the body if
/// it is a hurt target.
pub struct Normal {
    pub cfg: Cfg,
    pub dmg: u64,
}

impl Normal {
    /// Resolves a collision: whether the struck body takes this
    /// projectile's damage.  The projectile itself always despawns.
    pub fn on_collision(&self, target_groups: &Vec<Group>) -> (inflict: bool)
        ensures
            inflict == spec_is_hurt_target(target_groups@),
    {
        is_hurt_target(target_groups)
    }
}

/// The charged projectile: hurts the same targets, but reflects off other
/// obstacles while its bounce allowance lasts.
pub struct Charged {
    pub cfg: Cfg,
    pub dmg: u64,
    pub remaining_bounces: u64,
}

impl Charged {
    pub fn init_instance(cfg: Cfg, dmg: u64) -> (r: Self)
        ensures
            r.cfg == cfg,
            r.dmg == dmg,
            r.remaining_bounces == cfg.max_bounces,
    {
        let max_bounces = cfg.max_bounces;
        Charged { cfg, dmg, remaining_bounces: max_bounces }
    }

    /// Resolves a collision: a hurt target takes the damage and spends the
    /// projectile; any other obstacle reflects it while bounces remain,
    /// spending one, and spends the projectile once they run out.
    pub fn on_collision(&mut self, target_groups: &Vec<Group>) -> (r: (bool, CollisionAction))
        ensures
            final(self).cfg == old(self).cfg,
            final(self).dmg == old(self).dmg,
            r.0 == spec_is_hurt_target(target_groups@),
            spec_is_hurt_target(target_groups@) ==> r.1 == CollisionAction::Despawn
                && final(self).remaining_bounces == old(self).remaining_bounces,
            !spec_is_hurt_target(target_groups@) ==> (if old(self).remaining_bounces > 0 {
                r.1 == CollisionAction::Bounce && final(self).remaining_bounces == old(
                    self,
                ).remaining_bounces - 1
            } else {
                r.1 == CollisionAction::Despawn && final(self).remaining_bounces == 0
            }),
    {
        let hurt = is_hurt_target(target_groups);
        if hurt {
            (true, CollisionAction::Despawn)
        } else if self.remaining_bounces > 0 {
            self.remaining_bounces = self.remaining_bounces - 1;
            (false, CollisionAction::Bounce)
        } else {
            (false, CollisionAction::Despawn)
        }
    }
}

} // verus!
