//! Charge-up aiming: accuracy narrows while warming up, a shot opens a
//! cooldown, and re-aiming during the cooldown hot-starts the next aim.
//!
//! The remaining warm-up time maps to an angular spread proportional to the
//! fraction of the warm-up still outstanding; the fired shot's direction is
//! sampled uniformly inside that spread around the ideal direction, so a
//! fully charged shot is perfectly accurate.  All times are milliseconds and
//! all angles milliradians.

use vstd::prelude::*;

use crate::direction::Direction;
use crate::geom::Vec2;
use crate::rng;

verus! {

pub struct Cfg {
    /// Warm-up needed for a perfectly accurate shot, from a cold start.
    pub max_aim_time: u64,
    /// Warm-up needed before a shot counts as charged.
    pub charge_time: u64,
    /// Accuracy debt restored on a hot start during cooldown.
    pub min_aim_time: u64,
    /// Dead time after a shot before the controller clears to idle.
    pub cooldown_time: u64,
    /// Damage handed to each emitted projectile intent.
    pub dmg: u64,
    /// Widest half-spread, in milliradians, of a zero-warm-up shot.
    pub aim_range_off_rot: u64,
    /// Walk speed while aiming, in world units per second.
    pub walk_speed: u64,
}

impl Cfg {
    pub const MAX_AIM: u64 = 3000;

    pub const CHARGE: u64 = 100;

    pub const MIN_AIM: u64 = 100;

    pub const COOLDOWN: u64 = 100;

    pub const DMG: u64 = 10;

    /// A quarter turn, in milliradians.
    pub const AIM_OFF: u64 = 1571;

    pub const WALK_SPEED: u64 = 20;

    /// Bounds under which the spread arithmetic cannot overflow.
    pub open spec fn wf(self) -> bool {
        &&& 1 <= self.max_aim_time
        &&& self.aim_range_off_rot * self.max_aim_time <= u64::MAX
        &&& self.aim_range_off_rot <= 0xffff_ffff
    }
}

impl Default for Cfg {
    fn default() -> (r: Self)
        ensures
            r == (Cfg {
                max_aim_time: Cfg::MAX_AIM,
                charge_time: Cfg::CHARGE,
                min_aim_time: Cfg::MIN_AIM,
                cooldown_time: Cfg::COOLDOWN,
                dmg: Cfg::DMG,
                aim_range_off_rot: Cfg::AIM_OFF,
                walk_speed: Cfg::WALK_SPEED,
            }),
            r.wf(),
    {
        Cfg {
            max_aim_time: Self::MAX_AIM,
            charge_time: Self::CHARGE,
            min_aim_time: Self::MIN_AIM,
            cooldown_time: Self::COOLDOWN,
            dmg: Self::DMG,
            aim_range_off_rot: Self::AIM_OFF,
            walk_speed: Self::WALK_SPEED,
        }
    }
}

#[derive(Debug, Clone, Copy, PartialEq, Eq, Structural)]
pub enum Stage {
    WarmUp,
    Cooldown,
}

impl Stage {
    pub fn is_warm_up(&self) -> (r: bool)
        ensures
            r == (self is WarmUp),
    {
        match self {
            Stage::WarmUp => true,
            Stage::Cooldown => false,
        }
    }

    pub fn is_cooldown(&self) -> (r: bool)
        ensures
            r == (self is Cooldown),
    {
        match self {
            Stage::WarmUp => false,
            Stage::Cooldown => true,
        }
    }
}

/// What a warming-up or cooling-down tick crossed, if anything.
pub enum TimeEvent {
    ChargedUp,
    FinishedCooldown,
}

/// One sequential deduction step: spends as much of `delta` as `t` can
/// absorb, returning the remaining timer and the unspent delta.
pub open spec fn spec_deduct(t: u64, delta: u64) -> (u64, u64) {
    if delta == 0 || t == 0 {
        (t, delta)
    } else if t < delta {
        (0u64, (delta - t) as u64)
    } else {
        ((t - delta) as u64, 0u64)
    }
}

/// One sequential refill step: credits `t` with up to `delta`, clamped at
/// `cap`, returning the new timer and the uncredited remainder.
pub open spec fn spec_refill(t: u64, delta: u64, cap: u64) -> (u64, u64) {
    if t >= cap {
        (t, delta)
    } else if cap - t >= delta {
        ((t + delta) as u64, 0u64)
    } else {
        (cap, (delta - (cap - t)) as u64)
    }
}

pub struct Data {
    pub stage: Stage,
    /// Current aim target.
    pub pos: Vec2,
    /// Milliseconds of warm-up still owed before a fully accurate shot.
    pub time_to_aim: u64,
    /// Milliseconds still owed before the shot counts as charged.
    pub time_to_charge: u64,
    /// Milliseconds of cooldown elapsed since the last shot.
    pub cooling_down: u64,
}

impl Data {
    pub fn with_aim(cfg: &Cfg, pos: Vec2) -> (r: Self)
        ensures
            r == (Data {
                stage: Stage::WarmUp,
                pos,
                time_to_aim: cfg.max_aim_time,
                time_to_charge: 0u64,
                cooling_down: 0u64,
            }),
    {
        Data {
            stage: Stage::WarmUp,
            pos,
            time_to_aim: cfg.max_aim_time,
            time_to_charge: 0,
            cooling_down: 0,
        }
    }

    /// Spends elapsed time against the warm-up timer first, then against the
    /// charge timer.
    fn adv_time(&mut self, time_to_deduct: u64)
        ensures
            ({
                let (aim, rest) = spec_deduct(old(self).time_to_aim, time_to_deduct);
                let (charge, _) = spec_deduct(old(self).time_to_charge, rest);
                *final(self) == (Data {
                    time_to_aim: aim,
                    time_to_charge: charge,
                    ..*old(self)
                })
            }),
    {
        let mut remaining = time_to_deduct;
        if remaining != 0 && self.time_to_aim != 0 {
            if self.time_to_aim < remaining {
                remaining = remaining - self.time_to_aim;
                self.time_to_aim = 0;
            } else {
                self.time_to_aim = self.time_to_aim - remaining;
                remaining = 0;
            }
        }
        if remaining != 0 && self.time_to_charge != 0 {
            if self.time_to_charge < remaining {
                self.time_to_charge = 0;
            } else {
                self.time_to_charge = self.time_to_charge - remaining;
            }
        }
    }

    /// Restores accuracy debt on a hot start: the charge timer refills first
    /// (clamped at the configured charge time), the warm-up timer takes the
    /// remainder (clamped at the configured maximum).
    fn rewind_time(&mut self, cfg: &Cfg, time_to_credit: u64)
        requires
            old(self).time_to_aim <= cfg.max_aim_time,
            old(self).time_to_charge <= cfg.charge_time,
        ensures
            ({
                let (charge, rest) = spec_refill(
                    old(self).time_to_charge,
                    time_to_credit,
                    cfg.charge_time,
                );
                let (aim, _) = spec_refill(old(self).time_to_aim, rest, cfg.max_aim_time);
                *final(self) == (Data {
                    time_to_aim: aim,
                    time_to_charge: charge,
                    ..*old(self)
                })
            }),
    {
        let mut remaining = time_to_credit;
        if self.time_to_charge < cfg.charge_time {
            let room = cfg.charge_time - self.time_to_charge;
            if room >= remaining {
                self.time_to_charge = self.time_to_charge + remaining;
                remaining = 0;
            } else {
                self.time_to_charge = cfg.charge_time;
                remaining = remaining - room;
            }
        }
        if self.time_to_aim < cfg.max_aim_time {
            let room = cfg.max_aim_time - self.time_to_aim;
            if room >= remaining {
                self.time_to_aim = self.time_to_aim + remaining;
            } else {
                self.time_to_aim = cfg.max_aim_time;
            }
        }
    }

    /// Retargets the aim; re-aiming during cooldown hot-starts a new warm-up
    /// with one minimum-aim increment of accuracy debt restored.
    pub fn aim_at(&mut self, cfg: &Cfg, pos: Vec2)
        requires
            old(self).time_to_aim <= cfg.max_aim_time,
            old(self).time_to_charge <= cfg.charge_time,
        ensures
            final(self).pos == pos,
            final(self).stage is WarmUp,
            old(self).stage is WarmUp ==> *final(self) == (Data { pos, ..*old(self) }),
            old(self).stage is Cooldown ==> ({
                let (charge, rest) = spec_refill(
                    old(self).time_to_charge,
                    cfg.min_aim_time,
                    cfg.charge_time,
                );
                let (aim, _) = spec_refill(old(self).time_to_aim, rest, cfg.max_aim_time);
                *final(self) == (Data {
                    stage: Stage::WarmUp,
                    pos,
                    time_to_aim: aim,
                    time_to_charge: charge,
                    cooling_down: 0u64,
                })
            }),
    {
        self.pos = pos;
        if self.stage.is_cooldown() {
            // Hot start.
            self.rewind_time(cfg, cfg.min_aim_time);
            self.stage = Stage::WarmUp;
            self.cooling_down = 0;
        }
    }

    /// Advances the stage's own clock and reports what the tick crossed:
    /// warming up reports when the shot is charged, cooling down reports when
    /// the cooldown duration has been served.
    pub fn step_time(&mut self, cfg: &Cfg, delta: u64) -> (r: Option<TimeEvent>)
        requires
            old(self).cooling_down + delta <= u64::MAX,
        ensures
            final(self).stage == old(self).stage,
            final(self).pos == old(self).pos,
            match old(self).stage {
                Stage::WarmUp => {
                    let (aim, rest) = spec_deduct(old(self).time_to_aim, delta);
                    let (charge, _) = spec_deduct(old(self).time_to_charge, rest);
                    &&& *final(self) == (Data {
                        time_to_aim: aim,
                        time_to_charge: charge,
                        ..*old(self)
                    })
                    &&& (r matches Some(TimeEvent::ChargedUp) <==> charge == 0)
                    &&& !(r matches Some(TimeEvent::FinishedCooldown))
                },
                Stage::Cooldown => {
                    &&& *final(self) == (Data {
                        cooling_down: (old(self).cooling_down + delta) as u64,
                        ..*old(self)
                    })
                    &&& (r matches Some(TimeEvent::FinishedCooldown) <==> old(self).cooling_down
                        + delta >= cfg.cooldown_time)
                    &&& !(r matches Some(TimeEvent::ChargedUp))
                },
            },
    {
        match self.stage {
            Stage::WarmUp => {
                self.adv_time(delta);
                if self.time_to_charge == 0 {
                    Some(TimeEvent::ChargedUp)
                } else {
                    None
                }
            },
            Stage::Cooldown => {
                self.cooling_down = self.cooling_down + delta;
                if self.cooling_down >= cfg.cooldown_time {
                    Some(TimeEvent::FinishedCooldown)
                } else {
                    None
                }
            },
        }
    }

    pub fn is_charged(&self) -> (r: bool)
        ensures
            r == (self.time_to_charge == 0),
    {
        self.time_to_charge == 0
    }
}

/// Half-width of the sampling spread, in milliradians, owed to the warm-up
/// time still outstanding: the full configured spread at a cold start,
/// narrowing linearly to zero at full warm-up.
pub open spec fn spec_spread(cfg: Cfg, time_to_aim: u64) -> u64 {
    (cfg.aim_range_off_rot * time_to_aim / (cfg.max_aim_time as int)) as u64
}

/// The spread never widens as the warm-up proceeds: less outstanding
/// warm-up time means an equal or narrower spread.
pub proof fn lemma_spread_monotone(cfg: Cfg, t1: u64, t2: u64)
    requires
        cfg.wf(),
        t1 <= t2 <= cfg.max_aim_time,
    ensures
        spec_spread(cfg, t1) <= spec_spread(cfg, t2),
{
    let a = cfg.aim_range_off_rot as int;
    let m = cfg.max_aim_time as int;
    assert(0 <= a * t1 && a * t1 <= a * t2 && a * t2 <= a * m) by (nonlinear_arith)
        requires
            0 <= a,
            0 <= t1 <= t2 <= m,
    ;
    vstd::arithmetic::div_mod::lemma_div_pos_is_pos(a * t1, m);
    vstd::arithmetic::div_mod::lemma_div_is_ordered(a * t1, a * t2, m);
    vstd::arithmetic::div_mod::lemma_div_is_ordered(a * t2, a * m, m);
    vstd::arithmetic::div_mod::lemma_div_multiples_vanish(a, m);
}

/// A spread computed from a warm-up timer at or below the configured
/// maximum never exceeds the configured full spread.
pub proof fn lemma_spread_at_most_full(cfg: Cfg, t: u64)
    requires
        cfg.wf(),
        t <= cfg.max_aim_time,
    ensures
        spec_spread(cfg, t) <= cfg.aim_range_off_rot,
{
    vstd::arithmetic::mul::lemma_mul_inequality(
        t as int,
        cfg.max_aim_time as int,
        cfg.aim_range_off_rot as int,
    );
    vstd::arithmetic::div_mod::lemma_div_is_ordered(
        cfg.aim_range_off_rot as int * t as int,
        cfg.aim_range_off_rot as int * cfg.max_aim_time as int,
        cfg.max_aim_time as int,
    );
    vstd::arithmetic::div_mod::lemma_div_multiples_vanish(
        cfg.aim_range_off_rot as int,
        cfg.max_aim_time as int,
    );
}

/// One projectile to be realized by the host: spawn it offset from `from`
/// along the sampled direction, which deviates from the ideal
/// `from`-to-`target` direction by `angle_offset` milliradians.
pub struct ProjectileIntent {
    pub from: Vec2,
    pub target: Vec2,
    pub angle_offset: i64,
    pub charged: bool,
    pub dmg: u64,
}

pub struct System {
    pub cfg: Cfg,
    /// Whether the host managed to load the projectile assets; while false,
    /// firing is disabled and shots are dropped.
    pub cache_loaded: bool,
    pub data: Option<Data>,
}

impl Default for System {
    fn default() -> (r: Self)
        ensures
            r.cfg == (Cfg {
                max_aim_time: Cfg::MAX_AIM,
                charge_time: Cfg::CHARGE,
                min_aim_time: Cfg::MIN_AIM,
                cooldown_time: Cfg::COOLDOWN,
                dmg: Cfg::DMG,
                aim_range_off_rot: Cfg::AIM_OFF,
                walk_speed: Cfg::WALK_SPEED,
            }),
            !r.cache_loaded,
            r.data is None,
    {
        System { cfg: Default::default(), cache_loaded: false, data: None }
    }
}

impl System {
    /// Timers stay inside their configured caps.
    pub open spec fn wf(self) -> bool {
        &&& self.cfg.wf()
        &&& match self.data {
            Some(d) => d.time_to_aim <= self.cfg.max_aim_time && d.time_to_charge
                <= self.cfg.charge_time && d.cooling_down <= self.cfg.cooldown_time,
            None => true,
        }
    }

    /// Records whether the host's one-time asset load succeeded; on failure
    /// the aiming feature stays disabled rather than failing later.
    pub fn load_cache(&mut self, loaded: bool)
        ensures
            *final(self) == (System { cache_loaded: loaded, ..*old(self) }),
    {
        self.cache_loaded = loaded;
    }

    pub open spec fn spec_is_aiming(self) -> bool {
        match self.data {
            Some(d) => d.stage is WarmUp,
            None => false,
        }
    }

    /// The aim state a retarget towards `pos` leaves behind: a fresh cold
    /// warm-up from idle, only the target moved while warming up, and the
    /// hot start — one minimum-aim increment refilled, charge timer first —
    /// when re-aiming during cooldown.
    pub open spec fn spec_aimed_at(self, pos: Vec2) -> Option<Data> {
        match self.data {
            None => Some(
                Data {
                    stage: Stage::WarmUp,
                    pos,
                    time_to_aim: self.cfg.max_aim_time,
                    time_to_charge: 0u64,
                    cooling_down: 0u64,
                },
            ),
            Some(d) => match d.stage {
                Stage::WarmUp => Some(Data { pos, ..d }),
                Stage::Cooldown => {
                    let (charge, rest) = spec_refill(
                        d.time_to_charge,
                        self.cfg.min_aim_time,
                        self.cfg.charge_time,
                    );
                    let (aim, _) = spec_refill(d.time_to_aim, rest, self.cfg.max_aim_time);
                    Some(
                        Data {
                            stage: Stage::WarmUp,
                            pos,
                            time_to_aim: aim,
                            time_to_charge: charge,
                            cooling_down: 0u64,
                        },
                    )
                },
            },
        }
    }

    /// The aim state a tick of `delta` leaves behind: the warm-up timers
    /// spent, or the cooldown clock advanced and the state cleared once the
    /// cooldown duration has been served.
    pub open spec fn spec_narrowed_data(self, delta: u64) -> Option<Data> {
        match self.data {
            None => None,
            Some(d) => match d.stage {
                Stage::WarmUp => {
                    let (aim, rest) = spec_deduct(d.time_to_aim, delta);
                    let (charge, _) = spec_deduct(d.time_to_charge, rest);
                    Some(Data { time_to_aim: aim, time_to_charge: charge, ..d })
                },
                Stage::Cooldown => if d.cooling_down + delta >= self.cfg.cooldown_time {
                    None
                } else {
                    Some(Data { cooling_down: (d.cooling_down + delta) as u64, ..d })
                },
            },
        }
    }

    /// The event a tick of `delta` reports from this state.
    pub open spec fn spec_narrow_event(self, delta: u64) -> Option<TimeEvent> {
        match self.data {
            None => None,
            Some(d) => match d.stage {
                Stage::WarmUp => {
                    let (_, rest) = spec_deduct(d.time_to_aim, delta);
                    let (charge, _) = spec_deduct(d.time_to_charge, rest);
                    if charge == 0 {
                        Some(TimeEvent::ChargedUp)
                    } else {
                        None
                    }
                },
                Stage::Cooldown => if d.cooling_down + delta >= self.cfg.cooldown_time {
                    Some(TimeEvent::FinishedCooldown)
                } else {
                    None
                },
            },
        }
    }

    pub fn is_aiming(&self) -> (r: bool)
        ensures
            r == self.spec_is_aiming(),
    {
        match &self.data {
            Some(data) => data.stage.is_warm_up(),
            None => false,
        }
    }

    /// Starts aiming at `pos`, or retargets a running aim; during cooldown
    /// this is the hot start described on [`Data::aim_at`].
    pub fn aim_at(&mut self, pos: Vec2)
        requires
            old(self).wf(),
        ensures
            final(self).cfg == old(self).cfg,
            final(self).cache_loaded == old(self).cache_loaded,
            final(self).wf(),
            final(self).spec_is_aiming(),
            final(self).data == old(self).spec_aimed_at(pos),
    {
        match self.data.as_mut() {
            Some(data) => {
                data.aim_at(&self.cfg, pos);
            },
            None => {
                self.data = Some(Data::with_aim(&self.cfg, pos));
            },
        }
    }

    /// Per-frame tick: narrows a warm-up, or serves the cooldown and clears
    /// to idle once the cooldown duration has passed.  Reports the crossed
    /// event so the host can refresh its indicators.
    pub fn narrow_aim(&mut self, delta: u64) -> (r: Option<TimeEvent>)
        requires
            old(self).wf(),
            delta <= u64::MAX - old(self).cfg.cooldown_time,
        ensures
            final(self).cfg == old(self).cfg,
            final(self).cache_loaded == old(self).cache_loaded,
            final(self).wf(),
            final(self).data == old(self).spec_narrowed_data(delta),
            r == old(self).spec_narrow_event(delta),
    {
        let event = match self.data.as_mut() {
            Some(data) => {
                proof {
                    if data.stage is Cooldown {
                        assert(data.cooling_down + delta <= u64::MAX);
                    }
                }
                data.step_time(&self.cfg, delta)
            },
            None => {
                return None;
            },
        };
        if let Some(TimeEvent::FinishedCooldown) = &event {
            self.data = None;
        }
        event
    }

    /// Cancels any aim immediately.
    pub fn reset(&mut self)
        ensures
            *final(self) == (System { data: None::<Data>, ..*old(self) }),
    {
        self.data = None;
    }

    /// Aiming walk: while warming up the actor walks at the configured aim
    /// walk speed in its facing direction; otherwise aiming contributes no
    /// locomotion override.
    pub fn calc_vel(&self, facing_dir: Direction) -> (r: Option<(Direction, u64)>)
        ensures
            self.spec_is_aiming() ==> r == Some((facing_dir, self.cfg.walk_speed)),
            !self.spec_is_aiming() ==> r is None,
    {
        if self.is_aiming() {
            Some((facing_dir, self.cfg.walk_speed))
        } else {
            None
        }
    }

    pub fn calc_dmg(&self) -> (r: u64)
        ensures
            r == self.cfg.dmg,
    {
        self.cfg.dmg
    }

    /// The whole effect of a fire command: a no-op outside a warming-up
    /// state with loaded assets; otherwise the stage moves to cooldown and
    /// one intent is emitted towards the stored target, deviating by at most
    /// the current spread — and by exactly zero at full warm-up — and marked
    /// charged exactly when the charge timer had run out.
    pub open spec fn spec_shoot_post(
        pre: System,
        post: System,
        from: Vec2,
        dmg: u64,
        r: Option<ProjectileIntent>,
    ) -> bool {
        &&& post.cfg == pre.cfg
        &&& post.cache_loaded == pre.cache_loaded
        &&& (!(pre.cache_loaded && pre.spec_is_aiming()) ==> r is None && post.data == pre.data)
        &&& ((pre.cache_loaded && pre.spec_is_aiming()) ==> ({
            let d = pre.data->Some_0;
            &&& post.data == Some(Data { stage: Stage::Cooldown, ..d })
            &&& r matches Some(intent)
            &&& intent.from == from
            &&& intent.target == d.pos
            &&& intent.dmg == dmg
            &&& intent.charged == (d.time_to_charge == 0)
            &&& -(spec_spread(pre.cfg, d.time_to_aim) as int) <= intent.angle_offset
                <= spec_spread(pre.cfg, d.time_to_aim)
            &&& (d.time_to_aim == 0 ==> intent.angle_offset == 0)
        }))
    }

    /// Fires the aimed shot.
    ///
    /// Valid only while warming up with the assets loaded; in any other state
    /// the call is a no-op returning nothing.  On success the stage moves to
    /// cooldown and one projectile intent is emitted whose angular deviation
    /// is bounded by the current spread; a fully warmed-up shot deviates by
    /// exactly zero.
    pub fn shoot(&mut self, from: Vec2, dmg: u64) -> (r: Option<ProjectileIntent>)
        requires
            old(self).wf(),
        ensures
            final(self).wf(),
            System::spec_shoot_post(*old(self), *final(self), from, dmg, r),
    {
        if !self.cache_loaded {
            return None;
        }
        let data = match self.data.as_mut() {
            Some(data) => data,
            None => {
                return None;
            },
        };
        if !data.stage.is_warm_up() {
            return None;
        }
        data.stage = Stage::Cooldown;
        let angle_offset = if data.time_to_aim > 0 {
            proof {
                assert(self.cfg.aim_range_off_rot * data.time_to_aim
                    <= self.cfg.aim_range_off_rot * self.cfg.max_aim_time) by (nonlinear_arith)
                    requires
                        data.time_to_aim <= self.cfg.max_aim_time,
                ;
                lemma_spread_at_most_full(self.cfg, data.time_to_aim);
            }
            let spread = self.cfg.aim_range_off_rot * data.time_to_aim / self.cfg.max_aim_time;
            let sampled = rng::sample_inclusive(0, 2 * spread);
            sampled as i64 - spread as i64
        } else {
            0
        };
        Some(
            ProjectileIntent {
                from,
                target: data.pos,
                angle_offset,
                charged: data.time_to_charge == 0,
                dmg,
            },
        )
    }
}

} // verus!
