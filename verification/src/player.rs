//! The per-actor action arbiter: routes commands to the health, aim, dash
//! and melee controllers and picks at most one locomotion override per tick
//! in a fixed priority order — dash, then aim, then melee, then plain
//! walking in the facing direction.

use vstd::prelude::*;

use crate::aim;
use crate::crafting;
use crate::dash;
use crate::direction::Direction;
use crate::geom::Vec2;
use crate::health;
use crate::items::{Inventory, Stack};
use crate::melee;

verus! {

pub struct Player {
    /// The direction the actor faces, steered by held movement input.
    pub facing_dir: Direction,
    /// Plain walking speed, in world units per second.
    pub base_speed: u64,
    /// Commands aimed within this distance strike with melee instead of
    /// starting an aim.
    pub melee_radius: u64,
    pub dash: dash::System,
    pub aim: aim::System,
    pub melee: melee::System,
    pub health: health::System,
    pub inventory: Inventory,
}

impl Player {
    pub const DEFAULT_BASE_SPEED: u64 = 140;

    pub const MELEE_RADIUS: u64 = 30;

    pub open spec fn wf(self) -> bool {
        &&& self.dash.wf()
        &&& self.aim.wf()
        &&& self.melee.wf()
        &&& self.health.wf()
        &&& self.inventory.wf()
        &&& self.melee_radius * self.melee_radius <= u64::MAX
    }
}

impl Default for Player {
    fn default() -> (r: Self)
        ensures
            r.facing_dir == Direction::Neutral,
            r.base_speed == Player::DEFAULT_BASE_SPEED,
            r.melee_radius == Player::MELEE_RADIUS,
            r.dash.data is None,
            r.aim.data is None,
            r.melee.cache is None,
            r.melee.data is None,
            r.health.data is None,
            r.wf(),
    {
        let p = Player {
            facing_dir: Default::default(),
            base_speed: Self::DEFAULT_BASE_SPEED,
            melee_radius: Self::MELEE_RADIUS,
            dash: Default::default(),
            aim: Default::default(),
            melee: Default::default(),
            health: Default::default(),
            inventory: Default::default(),
        };
        proof {
            assert(p.dash.wf());
            assert(p.aim.cfg.wf());
            assert(p.aim.wf());
            assert(p.melee.wf());
            assert(p.health.wf());
            assert(p.inventory.wf());
            assert(p.melee_radius * p.melee_radius <= u64::MAX) by (nonlinear_arith)
                requires
                    p.melee_radius == 30u64,
            ;
            assert(p.wf());
        }
        p
    }
}

impl Player {
    /// Routes a pressed attack command aimed at `target_pos`.
    ///
    /// Nothing happens while dashing.  A target beyond the melee radius
    /// starts or retargets an aim, unless a combo is mid-swing; a target
    /// within the radius triggers the melee combo, and the id of the move
    /// that swung (if one did) is returned.
    pub fn handle_attack_pressed(&mut self, own_pos: Vec2, target_pos: Vec2) -> (r: Option<u64>)
        requires
            old(self).wf(),
            own_pos.in_bounds(),
            target_pos.in_bounds(),
        ensures
            final(self).wf(),
            final(self).facing_dir == old(self).facing_dir,
            final(self).health == old(self).health,
            final(self).dash == old(self).dash,
            final(self).aim.cfg == old(self).aim.cfg,
            final(self).aim.cache_loaded == old(self).aim.cache_loaded,
            old(self).dash.data is Some ==> (*final(self) == *old(self) && r is None),
            ({
                let dist_sq = (own_pos.x - target_pos.x) * (own_pos.x - target_pos.x) + (own_pos.y
                    - target_pos.y) * (own_pos.y - target_pos.y);
                let far = dist_sq > old(self).melee_radius * old(self).melee_radius;
                &&& (old(self).dash.data is None && far && old(self).melee.data is None) ==> (
                r is None && final(self).melee == old(self).melee && final(self).aim.data == old(
                    self,
                ).aim.spec_aimed_at(target_pos))
                &&& (old(self).dash.data is None && far && old(self).melee.data is Some) ==> (
                *final(self) == *old(self) && r is None)
                &&& (old(self).dash.data is None && !far) ==> (final(self).aim == old(self).aim
                    && melee::System::spec_attack_post(
                    old(self).melee,
                    final(self).melee,
                    old(self).facing_dir,
                    r,
                ))
            }),
    {
        if self.dash.is_dashing() {
            return None;
        }
        let dist_sq = own_pos.dist_sq(target_pos);
        if dist_sq > self.melee_radius * self.melee_radius {
            if !self.melee.is_attacking() {
                self.aim.aim_at(target_pos);
            }
            None
        } else {
            self.melee.attack(self.facing_dir)
        }
    }

    /// Routes a released attack command: fires the aimed shot, unless the
    /// actor is dashing or was not aiming.  A fired shot is exactly
    /// [`aim::System::spec_shoot_post`]'s transition, carrying the aim
    /// controller's configured damage.
    pub fn handle_attack_released(&mut self, own_pos: Vec2) -> (r: Option<aim::ProjectileIntent>)
        requires
            old(self).wf(),
        ensures
            final(self).wf(),
            final(self).facing_dir == old(self).facing_dir,
            final(self).health == old(self).health,
            final(self).dash == old(self).dash,
            final(self).melee == old(self).melee,
            old(self).dash.data is Some ==> (*final(self) == *old(self) && r is None),
            old(self).dash.data is None ==> aim::System::spec_shoot_post(
                old(self).aim,
                final(self).aim,
                own_pos,
                old(self).aim.cfg.dmg,
                r,
            ),
    {
        if self.dash.is_dashing() {
            return None;
        }
        if self.aim.is_aiming() {
            let dmg = self.calc_projectile_dmg();
            self.aim.shoot(own_pos, dmg)
        } else {
            None
        }
    }

    /// Routes a dash command.  Dashing overrides everything: the running
    /// aim and combo are cancelled, the dash's invincibility grant is
    /// applied through the health controller, and the dash itself is
    /// triggered towards the facing direction.
    pub fn handle_dash(&mut self)
        requires
            old(self).wf(),
        ensures
            final(self).wf(),
            final(self).facing_dir == old(self).facing_dir,
            final(self).aim.data is None,
            final(self).melee.data is None,
            !old(self).health.spec_is_dead() ==> final(self).health.spec_is_invincible(),
            final(self).health.spec_hp() == old(self).health.spec_hp(),
            final(self).dash.data is Some,
            match old(self).dash.data {
                None => final(self).dash.data == Some(
                    dash::Data { count: 0, since_start: 0, dir: old(self).facing_dir },
                ),
                Some(d) => if d.count < old(self).dash.cfg.chain {
                    final(self).dash.data == Some(
                        dash::Data {
                            count: (d.count + 1) as u8,
                            since_start: 0,
                            dir: old(self).facing_dir,
                        },
                    )
                } else {
                    final(self).dash.data == Some(
                        dash::Data { count: d.count, since_start: 0, dir: d.dir },
                    )
                },
            },
    {
        self.aim.reset();
        self.melee.reset();
        let window = self.dash.invincibility();
        self.health.set_invincibility(window);
        self.dash.dash(self.facing_dir);
    }

    /// Per-frame tick in the fixed order: melee decay, invincibility
    /// count-down, aim narrowing.  Each controller advances exactly as its
    /// own tick says; hit points are never touched.
    pub fn process(&mut self, delta: u64) -> (r: Option<aim::TimeEvent>)
        requires
            old(self).wf(),
            delta <= u64::MAX - old(self).aim.cfg.cooldown_time,
        ensures
            final(self).wf(),
            final(self).facing_dir == old(self).facing_dir,
            final(self).dash == old(self).dash,
            final(self).inventory == old(self).inventory,
            final(self).melee.cfg == old(self).melee.cfg,
            final(self).melee.cache == old(self).melee.cache,
            final(self).melee.data == old(self).melee.spec_process_data(delta),
            final(self).health.cfg == old(self).health.cfg,
            final(self).health.spec_hp() == old(self).health.spec_hp(),
            final(self).health.spec_is_dead() == old(self).health.spec_is_dead(),
            final(self).health.spec_invincibility_left() == old(
                self,
            ).health.spec_ticked_invincibility(delta),
            final(self).aim.cfg == old(self).aim.cfg,
            final(self).aim.cache_loaded == old(self).aim.cache_loaded,
            final(self).aim.data == old(self).aim.spec_narrowed_data(delta),
            r == old(self).aim.spec_narrow_event(delta),
    {
        self.melee.process(delta);
        self.health.process(delta);
        self.aim.narrow_aim(delta)
    }

    /// The projectile damage a fired shot carries.
    pub fn calc_projectile_dmg(&self) -> (r: u64)
        ensures
            r == self.aim.cfg.dmg,
    {
        self.aim.calc_dmg()
    }

    /// The tick's one locomotion override, picked in the fixed priority
    /// order: a running dash wins, then aiming walk, then combo walk, and
    /// with none of them the actor walks at base speed in its facing
    /// direction.
    pub fn calc_vel(&mut self, delta: u64) -> (r: (Direction, u64))
        requires
            old(self).wf(),
            old(self).dash.cfg.duration + old(self).dash.cfg.cooldown + delta <= u64::MAX,
        ensures
            final(self).wf(),
            final(self).facing_dir == old(self).facing_dir,
            final(self).aim == old(self).aim,
            final(self).melee == old(self).melee,
            final(self).health == old(self).health,
            r == match old(self).dash.spec_vel(delta, old(self).facing_dir) {
                Some(v) => v,
                None => if old(self).aim.spec_is_aiming() {
                    (old(self).facing_dir, old(self).aim.cfg.walk_speed)
                } else if old(self).melee.data is Some {
                    (old(self).facing_dir, old(self).melee.cfg.walk_speed)
                } else {
                    (old(self).facing_dir, old(self).base_speed)
                },
            },
    {
        if let Some(v) = self.dash.calc_vel(delta, self.facing_dir) {
            return v;
        }
        if let Some(v) = self.aim.calc_vel(self.facing_dir) {
            return v;
        }
        if let Some(v) = self.melee.calc_vel(self.facing_dir) {
            return v;
        }
        (self.facing_dir, self.base_speed)
    }

    /// Applies incoming damage through the health controller and returns
    /// the remaining hit points.
    pub fn damage(&mut self, dmg: u64) -> (remaining: u64)
        requires
            old(self).wf(),
        ensures
            final(self).wf(),
            final(self).facing_dir == old(self).facing_dir,
            final(self).health.cfg == old(self).health.cfg,
            remaining == final(self).health.spec_hp(),
            old(self).health.spec_is_invincible() ==> final(self).health == old(self).health
                && remaining == old(self).health.spec_hp(),
            (!old(self).health.spec_is_dead() && !old(self).health.spec_is_invincible()) ==> {
                &&& dmg >= old(self).health.spec_hp() ==> final(self).health.spec_is_dead()
                &&& dmg < old(self).health.spec_hp() ==> remaining == old(self).health.spec_hp()
                    - dmg
            },
    {
        self.health.damage(dmg)
    }

    /// Faces the actor back to neutral.
    pub fn reset_facing_dir(&mut self)
        ensures
            *final(self) == (Player { facing_dir: Direction::Neutral, ..*old(self) }),
    {
        self.facing_dir = Direction::Neutral;
    }

    /// Crafts a recipe against this actor's inventory.
    pub fn craft_recipe(&mut self, recipe: &crafting::Recipes) -> (r: Result<
        Option<Vec<Stack>>,
        crafting::Error,
    >)
        requires
            old(self).wf(),
            recipe.wf(),
        ensures
            final(self).wf(),
            (r is Ok) <==> (forall|i: int|
                0 <= i < recipe.input@.len() ==> crafting::spec_line_ok(
                    old(self).inventory.stacks@,
                    (#[trigger] recipe.input@[i]).0,
                    recipe.input@[i].1,
                )),
    {
        recipe.attempt_craft(&mut self.inventory)
    }
}

} // verus!
