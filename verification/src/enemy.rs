//! Opponent template data: what the wave generator needs to know about one
//! kind of opponent.

use vstd::prelude::*;

verus! {

/// One opponent template from the immutable catalog.
#[derive(Debug, Clone)]
pub struct Cfg {
    /// Numeric id the instantiation service resolves.
    pub id: u64,
    /// Budget cost in wave points; a valid catalog keeps this at one or
    /// more.
    pub value: u64,
    /// Base hit points.
    pub health: u64,
    /// First wave index at which this template may be picked.
    pub available_from: u64,
    /// Template ids this one must not share a wave with.
    pub blacklist: Vec<u64>,
}

impl Default for Cfg {
    fn default() -> (r: Self)
        ensures
            r.id == 0,
            r.value == 1,
            r.health == 100,
            r.available_from == 0,
            r.blacklist@ == Seq::<u64>::empty(),
    {
        Cfg { id: 0, value: 1, health: 100, available_from: 0, blacklist: Vec::new() }
    }
}

/// What a ranged opponent does this physics tick, decided by its distance
/// to the target.
#[derive(Debug, Clone, Copy, PartialEq, Eq, Structural)]
pub enum RangedAction {
    /// No target: stand still.
    Idle,
    /// Far away: stand and charge an aim at the target.
    Aim,
    /// Mid range: back away from the target.
    Flee,
    /// Point blank: dive straight at the target.
    DiveBomb,
}

/// Distance past which a ranged opponent stands and aims, in world units.
pub const AIM_RANGE: u64 = 200;

/// Distance under which a ranged opponent dive-bombs instead of fleeing.
pub const DIVE_RANGE: u64 = 20;

/// Picks the ranged opponent's action from the squared distance to its
/// target, if it has one: aim beyond the aim range, dive within the dive
/// range, flee in between.
pub fn ranged_action(dist_sq_to_target: Option<u64>) -> (r: RangedAction)
    ensures
        r == match dist_sq_to_target {
            None => RangedAction::Idle,
            Some(d2) => if d2 > AIM_RANGE * AIM_RANGE {
                RangedAction::Aim
            } else if d2 > DIVE_RANGE * DIVE_RANGE {
                RangedAction::Flee
            } else {
                RangedAction::DiveBomb
            },
        },
{
    match dist_sq_to_target {
        None => RangedAction::Idle,
        Some(d2) => {
            if d2 > AIM_RANGE * AIM_RANGE {
                RangedAction::Aim
            } else if d2 > DIVE_RANGE * DIVE_RANGE {
                RangedAction::Flee
            } else {
                RangedAction::DiveBomb
            }
        },
    }
}

} // verus!
