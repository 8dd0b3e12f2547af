//! Burst movement with chainable re-dashes and a forced slowdown on
//! overdraft.
//!
//! Triggering while idle starts a fresh dash.  Triggering mid-dash below the
//! configured chain limit starts a new leg in the new direction with the
//! chain count advanced and the clock reset.  Triggering at the limit does
//! not extend the dash: only the clock resets, so the actor replays the slow
//! overdraft tail instead of regaining dash speed.  The chain count can
//! therefore never exceed the configured maximum.

use vstd::prelude::*;

use crate::direction::Direction;

verus! {

pub struct Cfg {
    /// Invincibility grant in milliseconds a dash begin is worth; applied by
    /// the arbiter through the health controller, never by this controller.
    pub invincibility: u64,
    /// Active dash window in milliseconds.
    pub duration: u64,
    /// Slow overdraft tail in milliseconds after the active window.
    pub cooldown: u64,
    /// Speed of the overdraft tail, in world units per second.
    pub slowdown: u64,
    /// Speed of the active dash, in world units per second.
    pub speed: u64,
    /// Highest reachable chain count.
    pub chain: u8,
}

impl Cfg {
    pub const SPEED: u64 = 500;

    pub const CHAIN: u8 = 3;

    pub const DURATION: u64 = 200;

    pub const COOLDOWN: u64 = 50;

    pub const SLOWDOWN: u64 = 15;

    pub const INVINCIBILITY: u64 = 100;
}

impl Default for Cfg {
    fn default() -> (r: Self)
        ensures
            r == (Cfg {
                invincibility: Cfg::INVINCIBILITY,
                duration: Cfg::DURATION,
                cooldown: Cfg::COOLDOWN,
                slowdown: Cfg::SLOWDOWN,
                speed: Cfg::SPEED,
                chain: Cfg::CHAIN,
            }),
    {
        Cfg {
            invincibility: Self::INVINCIBILITY,
            duration: Self::DURATION,
            cooldown: Self::COOLDOWN,
            slowdown: Self::SLOWDOWN,
            speed: Self::SPEED,
            chain: Self::CHAIN,
        }
    }
}

pub struct Data {
    /// How many chained re-dashes this dash has consumed.
    pub count: u8,
    /// Milliseconds elapsed since the current leg started.
    pub since_start: u64,
    /// Direction of the current leg.
    pub dir: Direction,
}

impl Data {
    pub fn first_dash(d: Direction) -> (r: Self)
        ensures
            r == (Data { count: 0, since_start: 0, dir: d }),
    {
        Data { count: 0, since_start: 0, dir: d }
    }

    pub fn chained_dash(&self, d: Direction) -> (r: Self)
        requires
            self.count < u8::MAX,
        ensures
            r == (Data { count: (self.count + 1) as u8, since_start: 0, dir: d }),
    {
        Data { count: self.count + 1, since_start: 0, dir: d }
    }
}

pub struct System {
    pub cfg: Cfg,
    pub data: Option<Data>,
}

impl Default for System {
    fn default() -> (r: Self)
        ensures
            r.cfg == (Cfg {
                invincibility: Cfg::INVINCIBILITY,
                duration: Cfg::DURATION,
                cooldown: Cfg::COOLDOWN,
                slowdown: Cfg::SLOWDOWN,
                speed: Cfg::SPEED,
                chain: Cfg::CHAIN,
            }),
            r.data is None,
    {
        System { cfg: Default::default(), data: None }
    }
}

impl System {
    /// The chain count never exceeds the configured maximum, and the clock
    /// stays inside the dash-plus-overdraft window.
    pub open spec fn wf(self) -> bool {
        match self.data {
            Some(d) => d.count <= self.cfg.chain && d.since_start <= self.cfg.duration
                + self.cfg.cooldown,
            None => true,
        }
    }

    /// Routes a dash command.
    ///
    /// Idle starts a fresh dash towards `facing_dir`; a chained re-dash below
    /// the limit redirects with the count advanced; at the limit only the
    /// clock resets (the overdraft replays), never the count or the stored
    /// direction.
    pub fn dash(&mut self, facing_dir: Direction)
        requires
            old(self).wf(),
        ensures
            final(self).cfg == old(self).cfg,
            final(self).wf(),
            match old(self).data {
                None => final(self).data == Some(Data { count: 0, since_start: 0, dir: facing_dir }),
                Some(d) => if d.count < old(self).cfg.chain {
                    final(self).data == Some(
                        Data { count: (d.count + 1) as u8, since_start: 0, dir: facing_dir },
                    )
                } else {
                    final(self).data == Some(Data { count: d.count, since_start: 0, dir: d.dir })
                },
            },
    {
        if let Some(dashing) = &mut self.data {
            if dashing.count < self.cfg.chain {
                // Already dashing: change direction and advance the count.
                let chained = dashing.chained_dash(facing_dir);
                self.data = Some(chained);
            } else {
                // Overdrafted dash: forced slowdown.
                dashing.since_start = 0;
            }
        } else {
            self.data = Some(Data::first_dash(facing_dir));
        }
    }

    /// The locomotion override a tick of `delta` yields from this state.
    pub open spec fn spec_vel(self, delta: u64, facing_dir: Direction) -> Option<
        (Direction, u64),
    > {
        match self.data {
            None => None,
            Some(d) => {
                let elapsed = d.since_start + delta;
                if elapsed > self.cfg.duration + self.cfg.cooldown {
                    None
                } else if d.count >= self.cfg.chain || elapsed > self.cfg.duration {
                    Some((facing_dir, self.cfg.slowdown))
                } else {
                    Some((d.dir, self.cfg.speed))
                }
            },
        }
    }

    /// Advances the dash clock and reports the locomotion override.
    ///
    /// Within the active window and below the chain limit: dash speed in the
    /// stored direction.  Past the active window, or at the chain limit, but
    /// within the overdraft tail: the slow penalty speed in the actor's
    /// current facing direction.  Past the whole window: the state clears and
    /// there is no override.
    pub fn calc_vel(&mut self, delta: u64, facing_dir: Direction) -> (r: Option<(Direction, u64)>)
        requires
            old(self).wf(),
            old(self).cfg.duration + old(self).cfg.cooldown + delta <= u64::MAX,
        ensures
            final(self).cfg == old(self).cfg,
            final(self).wf(),
            r == old(self).spec_vel(delta, facing_dir),
            match old(self).data {
                None => final(self).data is None,
                Some(d) => {
                    let elapsed = d.since_start + delta;
                    if elapsed > old(self).cfg.duration + old(self).cfg.cooldown {
                        final(self).data is None
                    } else {
                        final(self).data == Some(
                            Data { count: d.count, since_start: elapsed as u64, dir: d.dir },
                        )
                    }
                },
            },
    {
        let data = match self.data.as_mut() {
            Some(data) => data,
            None => {
                return None;
            },
        };
        let elapsed = data.since_start + delta;
        if elapsed > self.cfg.duration + self.cfg.cooldown {
            self.data = None;
            None
        } else {
            data.since_start = elapsed;
            if self.cfg.chain <= data.count || elapsed > self.cfg.duration {
                Some((facing_dir, self.cfg.slowdown))
            } else {
                Some((data.dir, self.cfg.speed))
            }
        }
    }

    pub fn is_dashing(&self) -> (r: bool)
        ensures
            r == (self.data is Some),
    {
        self.data.is_some()
    }

    /// The invincibility grant a caller applies when a dash begins.
    pub fn invincibility(&self) -> (r: u64)
        ensures
            r == self.cfg.invincibility,
    {
        self.cfg.invincibility
    }
}

} // verus!
