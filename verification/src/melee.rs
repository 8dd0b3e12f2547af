//! The melee combo chain: timed attack moves linked by per-move successor
//! ids, advanced by attack commands and decayed by idling.
//!
//! Triggering with no combo running executes the configured initial move.
//! While a move is running, a trigger before its cooldown has elapsed is
//! dropped (the move cannot be cancelled); a trigger after the cooldown has
//! elapsed advances to the move's linked successor, or wraps to the initial
//! move when it has none.  The per-frame tick clears the whole combo once
//! the elapsed time exceeds the current move's cooldown with no input having
//! kept the chain alive.  A move id that the catalog cannot resolve means no
//! attack is performed; it is never fatal.

use vstd::prelude::*;

use crate::attack::Attack;
use crate::direction::Direction;

verus! {

pub struct Cfg {
    /// Walk speed while a combo is running, in world units per second.
    pub walk_speed: u64,
    /// Move the chain starts from and wraps back to.
    pub initial_attack: u64,
}

impl Cfg {
    pub const WALK_SPEED: u64 = 0;

    pub const INITIAL_ATTACK: u64 = 0;
}

impl Default for Cfg {
    fn default() -> (r: Self)
        ensures
            r == (Cfg { walk_speed: Cfg::WALK_SPEED, initial_attack: Cfg::INITIAL_ATTACK }),
    {
        Cfg { walk_speed: Self::WALK_SPEED, initial_attack: Self::INITIAL_ATTACK }
    }
}

/// The slice of a move the running combo needs to remember: its cooldown
/// gate and its link to the next move.
pub struct AttackData {
    pub next_attack: Option<u64>,
    pub cooldown: u64,
}

impl AttackData {
    pub fn from_attack(atk: &Attack) -> (r: Self)
        ensures
            r.next_attack == atk.cfg.next_attack,
            r.cooldown == atk.cfg.cooldown_duration,
    {
        AttackData { next_attack: atk.next_attack(), cooldown: atk.cooldown() }
    }
}

pub struct Data {
    /// The running move's remembered cooldown and successor.
    pub attack: AttackData,
    /// Milliseconds since the running move was executed.
    pub since_last: u64,
    /// Id of the running move.
    pub curr_attack: u64,
}

pub struct System {
    pub cfg: Cfg,
    /// The move catalog, ids being positions; absent until the host's
    /// one-time load, and melee stays disabled while it is.
    pub cache: Option<Vec<Attack>>,
    pub data: Option<Data>,
}

impl Default for System {
    fn default() -> (r: Self)
        ensures
            r.cfg == (Cfg { walk_speed: Cfg::WALK_SPEED, initial_attack: Cfg::INITIAL_ATTACK }),
            r.cache is None,
            r.data is None,
    {
        System { cfg: Default::default(), cache: None, data: None }
    }
}

/// One move freshly executed towards `dir`: its configuration is untouched
/// and its windows are newly opened (cooldown always; animation and hit only
/// for a direction with an angle), with no hits recorded yet.
pub open spec fn spec_move_executed(pre: Attack, post: Attack, dir: Direction) -> bool {
    &&& post.cfg == pre.cfg
    &&& post.data matches Some(d) && d.hit_counts@ == Seq::<(u64, u64)>::empty()
        && d.remaining_cooldown_duration == pre.cfg.cooldown_duration
        && d.remaining_animating_duration == (if dir != Direction::Neutral {
        pre.cfg.animation_duration
    } else {
        0u64
    }) && d.remaining_hit_duration == (if dir != Direction::Neutral {
        pre.cfg.hit_duration
    } else {
        0u64
    })
}

/// The move catalog after a successful trigger: the previously running move
/// (when there was one, other than the move now swinging) has its hit volume
/// cancelled, the executed move's windows are freshly opened, and every
/// other move is untouched.
pub open spec fn spec_catalog_after_attack(
    pre: Seq<Attack>,
    post: Seq<Attack>,
    prev: Option<u64>,
    executed: int,
    dir: Direction,
) -> bool {
    &&& post.len() == pre.len()
    &&& 0 <= executed < pre.len()
    &&& spec_move_executed(pre[executed], post[executed], dir)
    &&& match prev {
        Some(p) => p != executed ==> post[p as int] == (Attack {
            cfg: pre[p as int].cfg,
            data: None,
        }),
        None => true,
    }
    &&& forall|k: int|
        0 <= k < pre.len() && k != executed && (match prev {
            Some(p) => k != p as int,
            None => true,
        }) ==> post[k] == pre[k]
}

impl System {
    /// A running combo refers to a catalog move and remembers that move's
    /// own cooldown and successor.
    pub open spec fn wf(self) -> bool {
        match self.data {
            Some(d) => match self.cache {
                Some(moves) => d.curr_attack < moves@.len() && d.attack.cooldown
                    == moves@[d.curr_attack as int].cfg.cooldown_duration && d.attack.next_attack
                    == moves@[d.curr_attack as int].cfg.next_attack,
                None => false,
            },
            None => true,
        }
    }

    /// The move id a trigger would execute from this state: the initial move
    /// from idle, the successor (or the initial move when there is no link)
    /// once the running move's cooldown has elapsed, and nothing while the
    /// running move is still inside its cooldown or the id cannot be
    /// resolved.
    pub open spec fn spec_attack_choice(self) -> Option<u64> {
        match self.cache {
            None => None,
            Some(moves) => {
                let wanted = match self.data {
                    Some(d) => if d.since_last <= d.attack.cooldown {
                        None
                    } else {
                        Some(
                            match d.attack.next_attack {
                                Some(n) => n,
                                None => self.cfg.initial_attack,
                            },
                        )
                    },
                    None => Some(self.cfg.initial_attack),
                };
                match wanted {
                    Some(n) => if n < moves@.len() {
                        Some(n)
                    } else {
                        None
                    },
                    None => None,
                }
            },
        }
    }

    /// The combo state a tick of `delta` leaves behind: the elapsed clock
    /// advanced, or nothing once it passes the running move's cooldown.
    pub open spec fn spec_process_data(self, delta: u64) -> Option<Data> {
        match self.data {
            None => None,
            Some(d) => if d.since_last + delta > d.attack.cooldown {
                None
            } else {
                Some(Data { since_last: (d.since_last + delta) as u64, ..d })
            },
        }
    }

    /// The whole effect of a trigger: the executed id is exactly the choice
    /// this state determines; nothing changes when there is none, and
    /// otherwise the combo state points at the executed move with a fresh
    /// clock and the catalog is updated as [`spec_catalog_after_attack`]
    /// says.
    pub open spec fn spec_attack_post(
        pre: System,
        post: System,
        dir: Direction,
        r: Option<u64>,
    ) -> bool {
        &&& post.cfg == pre.cfg
        &&& r == pre.spec_attack_choice()
        &&& (r is None ==> post.data == pre.data && post.cache == pre.cache)
        &&& (r matches Some(next) ==> ({
            &&& pre.cache matches Some(moves)
            &&& post.cache matches Some(nm)
            &&& spec_catalog_after_attack(
                moves@,
                nm@,
                match pre.data {
                    Some(d) => Some(d.curr_attack),
                    None => None,
                },
                next as int,
                dir,
            )
            &&& post.data matches Some(nd)
            &&& nd.curr_attack == next
            &&& nd.since_last == 0
            &&& nd.attack.cooldown == moves@[next as int].cfg.cooldown_duration
            &&& nd.attack.next_attack == moves@[next as int].cfg.next_attack
        }))
    }

    /// Installs the move catalog the host resolved.
    pub fn load_cache(&mut self, moves: Vec<Attack>)
        requires
            old(self).data is None,
        ensures
            final(self).cfg == old(self).cfg,
            final(self).cache == Some(moves),
            final(self).data is None,
            final(self).wf(),
    {
        self.cache = Some(moves);
    }

    pub fn is_attacking(&self) -> (r: bool)
        ensures
            r == (self.data is Some),
    {
        self.data.is_some()
    }

    /// Combo walk: while a combo is running the actor walks at the melee
    /// walk speed in its facing direction.
    pub fn calc_vel(&self, facing_dir: Direction) -> (r: Option<(Direction, u64)>)
        ensures
            self.data is Some ==> r == Some((facing_dir, self.cfg.walk_speed)),
            self.data is None ==> r is None,
    {
        if self.data.is_some() {
            Some((facing_dir, self.cfg.walk_speed))
        } else {
            None
        }
    }

    /// Force-clears the combo and cancels the running move's hit volume.
    pub fn reset(&mut self)
        requires
            old(self).wf(),
        ensures
            final(self).cfg == old(self).cfg,
            final(self).data is None,
            final(self).wf(),
            old(self).data is None ==> final(self).cache == old(self).cache,
            old(self).data matches Some(d) ==> (old(self).cache matches Some(moves)
                && final(self).cache matches Some(nm) && nm@ == moves@.update(
                d.curr_attack as int,
                Attack { cfg: moves@[d.curr_attack as int].cfg, data: None },
            )),
    {
        let data = self.data.take();
        if let Some(data) = data {
            if let Some(moves) = self.cache.as_mut() {
                let n = moves.len();
                if data.curr_attack < n as u64 {
                    moves[data.curr_attack as usize].reset();
                }
            }
            proof {
                assert(self.cache->Some_0@ =~= old(self).cache->Some_0@.update(
                    data.curr_attack as int,
                    Attack {
                        cfg: old(self).cache->Some_0@[data.curr_attack as int].cfg,
                        data: None,
                    },
                ));
            }
        }
    }

    /// Per-frame decay: the combo clears entirely once the elapsed time
    /// exceeds the running move's cooldown without new input.
    pub fn process(&mut self, delta: u64)
        requires
            old(self).wf(),
        ensures
            final(self).cfg == old(self).cfg,
            final(self).cache == old(self).cache,
            final(self).wf(),
            final(self).data == old(self).spec_process_data(delta),
    {
        let clear = match self.data.as_mut() {
            Some(data) => {
                match data.since_last.checked_add(delta) {
                    Some(elapsed) => {
                        if elapsed > data.attack.cooldown {
                            true
                        } else {
                            data.since_last = elapsed;
                            false
                        }
                    },
                    None => true,
                }
            },
            None => false,
        };
        if clear {
            self.data = None;
        }
    }

    /// Routes an attack command and returns the id of the move executed, if
    /// one was.
    ///
    /// No combo running: the configured initial move is executed.  A combo
    /// running whose move's cooldown has not yet elapsed drops the input.
    /// One whose cooldown has elapsed advances to the linked successor, or
    /// wraps to the initial move when there is no link.  An id the catalog
    /// cannot resolve, or a missing catalog, performs no attack and changes
    /// no combo state.
    pub fn attack(&mut self, dir: Direction) -> (r: Option<u64>)
        requires
            old(self).wf(),
        ensures
            final(self).wf(),
            System::spec_attack_post(*old(self), *final(self), dir, r),
    {
        if self.cache.is_none() {
            return None;
        }
        let next_id: u64 = match self.data.as_ref() {
            Some(data) => {
                if data.since_last <= data.attack.cooldown {
                    // Still mid-move: the input is dropped.
                    return None;
                }
                match data.attack.next_attack {
                    Some(n) => n,
                    None => self.cfg.initial_attack,
                }
            },
            None => self.cfg.initial_attack,
        };
        let moves_len = match self.cache.as_ref() {
            Some(moves) => moves.len(),
            None => 0,
        };
        if next_id >= moves_len as u64 {
            // Unresolvable move id: no attack is performed.
            return None;
        }
        // Cancel the previous move's hit volume before the new one swings.
        self.reset();
        if let Some(moves) = self.cache.as_mut() {
            let idx = next_id as usize;
            moves[idx].execute(dir);
            let attack = AttackData::from_attack(&moves[idx]);
            self.data = Some(Data { attack, since_last: 0, curr_attack: next_id });
        }
        Some(next_id)
    }
}

} // verus!
