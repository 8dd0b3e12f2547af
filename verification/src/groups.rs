//! Collision-group membership as an explicit tag, with the physics-layer
//! masks derived from it.

use vstd::prelude::*;

verus! {

#[derive(Debug, Clone, Copy, PartialEq, Eq, Structural)]
pub enum Group {
    Enemy,
    Player,
    Switch,
    Projectile,
}

impl Group {
    /// The scene-side group label; switches share the player's label in the
    /// scene's group table.
    pub fn name(&self) -> (r: &'static str)
        ensures
            self is Enemy ==> r@ == "enemy"@,
            self is Player ==> r@ == "player"@,
            self is Projectile ==> r@ == "projectile"@,
            self is Switch ==> r@ == "player"@,
    {
        match self {
            Group::Enemy => "enemy",
            Group::Player => "player",
            Group::Projectile => "projectile",
            Group::Switch => "player",
        }
    }

    pub open spec fn spec_physics_mask(self) -> i64 {
        match self {
            Group::Enemy => 2,
            Group::Player => 1,
            Group::Projectile => 4,
            Group::Switch => 8,
        }
    }

    /// The group's own physics layer bit.
    pub fn physics_mask(&self) -> (r: i64)
        ensures
            r == self.spec_physics_mask(),
    {
        match self {
            Group::Enemy => 2,
            Group::Player => 1,
            Group::Projectile => 4,
            Group::Switch => 8,
        }
    }

    pub open spec fn spec_collected_mask(groups: Seq<Group>) -> i64
        decreases groups.len(),
    {
        if groups.len() == 0 {
            0
        } else {
            Self::spec_collected_mask(groups.drop_last()) | groups.last().spec_physics_mask()
        }
    }

    /// The union of the physics layer bits of every listed group.
    pub fn collected_physics_mask(groups: &[Group]) -> (r: i64)
        ensures
            r == Group::spec_collected_mask(groups@),
    {
        let mut flags: i64 = 0;
        let mut i: usize = 0;
        while i < groups.len()
            invariant
                i <= groups.len(),
                flags == Group::spec_collected_mask(groups@.take(i as int)),
            decreases groups.len() - i,
        {
            proof {
                assert(groups@.take(i + 1).drop_last() =~= groups@.take(i as int));
                assert(groups@.take(i + 1).last() == groups@[i as int]);
            }
            flags = flags | groups[i].physics_mask();
            i = i + 1;
        }
        proof {
            assert(groups@.take(groups@.len() as int) =~= groups@);
        }
        flags
    }
}

} // verus!
