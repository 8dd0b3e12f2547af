//! Hit points, the timed invincibility window, and the one-way death
//! transition.
//!
//! A live actor holds between one hit point and the configured maximum.
//! Damage while invincible is a guaranteed no-op; otherwise it subtracts
//! exactly the applied amount, and an amount at or above the remaining hit
//! points clears the state for good: death is terminal, every later
//! operation leaves the controller dead, so a death notification derived
//! from the alive-to-dead transition fires at most once per actor.

use vstd::prelude::*;

verus! {

pub struct Cfg {
    pub max_hp: u64,
}

impl Cfg {
    pub const MAX_HP: u64 = 100;
}

impl Default for Cfg {
    fn default() -> (r: Self)
        ensures
            r.max_hp == Cfg::MAX_HP,
    {
        Cfg { max_hp: Self::MAX_HP }
    }
}

pub struct Data {
    /// Remaining invincibility window in milliseconds, if one is running.
    invincibility: Option<u64>,
    /// Current hit points; a live actor always holds at least one.
    hp: u64,
}

impl Data {
    pub closed spec fn hp(self) -> u64 {
        self.hp
    }

    pub closed spec fn invincibility(self) -> Option<u64> {
        self.invincibility
    }

    /// Counts the invincibility window down, clamped at zero: a window that
    /// does not outlast the elapsed time is removed rather than left at zero.
    fn process(&mut self, delta: u64)
        ensures
            final(self).hp == old(self).hp,
            final(self).invincibility == match old(self).invincibility {
                Some(inv) => if inv > delta {
                    Some((inv - delta) as u64)
                } else {
                    None::<u64>
                },
                None => None::<u64>,
            },
    {
        if let Some(inv) = self.invincibility {
            if inv > delta {
                self.invincibility = Some(inv - delta);
            } else {
                self.invincibility = None;
            }
        }
    }
}

pub struct System {
    pub cfg: Cfg,
    pub data: Option<Data>,
}

impl Default for System {
    fn default() -> (r: Self)
        ensures
            r.cfg.max_hp == Cfg::MAX_HP,
            r.data is None,
    {
        System { cfg: Default::default(), data: None }
    }
}

impl System {
    /// A live actor's hit points stay within one and the configured maximum.
    pub open spec fn wf(self) -> bool {
        match self.data {
            Some(d) => 1 <= d.hp() <= self.cfg.max_hp,
            None => true,
        }
    }

    pub open spec fn spec_is_dead(self) -> bool {
        self.data is None
    }

    pub open spec fn spec_is_invincible(self) -> bool {
        match self.data {
            Some(d) => d.invincibility() is Some,
            None => false,
        }
    }

    pub open spec fn spec_hp(self) -> u64 {
        match self.data {
            Some(d) => d.hp(),
            None => 0,
        }
    }

    /// The invincibility window still running, if any.
    pub open spec fn spec_invincibility_left(self) -> Option<u64> {
        match self.data {
            Some(d) => d.invincibility(),
            None => None,
        }
    }

    /// The invincibility window a tick of `delta` leaves: counted down,
    /// clamped at zero (a window the tick outlasts is removed).
    pub open spec fn spec_ticked_invincibility(self, delta: u64) -> Option<u64> {
        match self.spec_invincibility_left() {
            Some(inv) => if inv > delta {
                Some((inv - delta) as u64)
            } else {
                None
            },
            None => None,
        }
    }

    /// Brings the actor to life at full hit points with no invincibility.
    pub fn init(&mut self)
        requires
            old(self).cfg.max_hp >= 1,
        ensures
            final(self).cfg == old(self).cfg,
            final(self).wf(),
            !final(self).spec_is_dead(),
            !final(self).spec_is_invincible(),
            final(self).spec_hp() == final(self).cfg.max_hp,
    {
        self.data = Some(Data { invincibility: None, hp: self.cfg.max_hp });
    }

    /// Advances the invincibility timer; hit points are untouched.
    pub fn process(&mut self, delta: u64)
        requires
            old(self).wf(),
        ensures
            final(self).cfg == old(self).cfg,
            final(self).wf(),
            final(self).spec_is_dead() == old(self).spec_is_dead(),
            final(self).spec_hp() == old(self).spec_hp(),
            final(self).spec_invincibility_left() == old(self).spec_ticked_invincibility(delta),
    {
        if let Some(data) = self.data.as_mut() {
            data.process(delta);
        }
    }

    pub fn is_invincible(&self) -> (r: bool)
        ensures
            r == self.spec_is_invincible(),
    {
        if let Some(data) = &self.data {
            data.invincibility.is_some()
        } else {
            false
        }
    }

    pub fn is_dead(&self) -> (r: bool)
        ensures
            r == self.spec_is_dead(),
    {
        self.data.is_none()
    }

    /// Starts (or restarts) the invincibility window on a live actor.
    pub fn set_invincibility(&mut self, duration: u64)
        requires
            old(self).wf(),
        ensures
            final(self).cfg == old(self).cfg,
            final(self).wf(),
            final(self).spec_is_dead() == old(self).spec_is_dead(),
            final(self).spec_hp() == old(self).spec_hp(),
            !old(self).spec_is_dead() ==> (final(self).data matches Some(d) && d.invincibility()
                == Some(duration)),
            old(self).spec_is_dead() ==> final(self).data is None,
    {
        if let Some(data) = self.data.as_mut() {
            data.invincibility = Some(duration);
        }
    }

    /// Applies damage and returns the remaining hit points (zero once dead).
    ///
    /// While invincible the call is a guaranteed no-op; otherwise it
    /// subtracts exactly `dmg`, and an amount at or above the remaining hit
    /// points is the alive-to-dead transition, after which every further
    /// call leaves the state dead.
    pub fn damage(&mut self, dmg: u64) -> (remaining: u64)
        requires
            old(self).wf(),
        ensures
            final(self).cfg == old(self).cfg,
            final(self).wf(),
            remaining == final(self).spec_hp(),
            old(self).spec_is_dead() ==> final(self).spec_is_dead() && remaining == 0,
            old(self).spec_is_invincible() ==> final(self).data == old(self).data && remaining
                == old(self).spec_hp(),
            !old(self).spec_is_dead() && !old(self).spec_is_invincible() ==> {
                &&& dmg >= old(self).spec_hp() ==> final(self).spec_is_dead() && remaining == 0
                &&& dmg < old(self).spec_hp() ==> {
                    &&& !final(self).spec_is_dead()
                    &&& remaining == old(self).spec_hp() - dmg
                    &&& final(self).spec_is_invincible() == old(self).spec_is_invincible()
                }
            },
    {
        if !self.is_invincible() {
            let mut died = false;
            if let Some(data) = self.data.as_mut() {
                if dmg >= data.hp {
                    died = true;
                } else {
                    data.hp = data.hp - dmg;
                }
            }
            if died {
                self.data = None;
            }
        }
        match self.data.as_ref() {
            Some(data) => data.hp,
            None => 0,
        }
    }

    pub fn get_max_hp(&self) -> (r: u64)
        ensures
            r == self.cfg.max_hp,
    {
        self.cfg.max_hp
    }
}

} // verus!
