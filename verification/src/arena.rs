//! The encounter director: owns the wave counter and the count of
//! outstanding opponents, and decides when the next wave starts.
//!
//! The host realizes the spawn descriptors and reports how many it actually
//! instantiated; each defeat notification decrements that count, and the
//! director demands the next wave exactly when it reaches zero.  A wave
//! whose realized count is zero from the start demands the next wave
//! immediately rather than stalling.

use vstd::prelude::*;

use crate::geom::Vec2;
use crate::wave::{spec_pickable, Cache, Spawn, Wave};

verus! {

pub struct Arena {
    /// Opponents of the current wave still standing, as reported by the
    /// host.
    pub spawn_count: u64,
    /// The running wave; none before the first wave starts.
    pub wave: Option<Wave>,
}

impl Default for Arena {
    fn default() -> (r: Self)
        ensures
            r.spawn_count == 0,
            r.wave is None,
    {
        Arena { spawn_count: 0, wave: None }
    }
}

impl Arena {
    /// The wave index this director is at (the coming first wave counts as
    /// zero).
    pub open spec fn spec_wave_index(self) -> u64 {
        match self.wave {
            Some(w) => w.index(),
            None => 0,
        }
    }

    /// Retires the previous wave, advances the wave counter and produces the
    /// spawn descriptors for the new wave; the host realizes them and
    /// reports the realized count through [`Arena::wave_realized`].
    pub fn spawn_next_wave(&mut self, cache: &Cache, arena_pos: Vec2, arena_dim: Vec2) -> (r: Vec<
        Spawn,
    >)
        requires
            cache.wf(),
            arena_pos.in_bounds(),
            arena_dim.in_bounds(),
            arena_dim.x >= 0,
            arena_dim.y >= 0,
            old(self).wave matches Some(w) ==> w.index() < 0x7fff_ffff_ffff_ffff,
        ensures
            final(self).spawn_count == old(self).spawn_count,
            final(self).wave matches Some(w) && w.index() == (match old(self).wave {
                Some(prev) => prev.index() + 1,
                None => 0,
            }),
            (r@.len() == 0) <==> (forall|i: int|
                0 <= i < cache.templates@.len() ==> !spec_pickable(
                    *cache,
                    final(self).spec_wave_index(),
                    i,
                )),
            forall|j: int|
                0 <= j < r@.len() ==> #[trigger] r@[j].spawn_id < cache.templates@.len()
                    && spec_pickable(*cache, final(self).spec_wave_index(), r@[j].spawn_id as int),
    {
        let wave = match self.wave.take() {
            None => Wave::initial(),
            Some(prev) => prev.successor(),
        };
        let spawns = wave.generate_spawns(cache, arena_pos, arena_dim);
        self.wave = Some(wave);
        proof {
            assert(self.spec_wave_index() == wave.index());
        }
        spawns
    }

    /// Takes the host's report of how many descriptors were actually
    /// realized.  A report of zero means the wave is already over: the
    /// caller must start the next wave at once instead of waiting for
    /// defeats that can never come.
    pub fn wave_realized(&mut self, realized: u64) -> (start_next: bool)
        ensures
            final(self).wave == old(self).wave,
            final(self).spawn_count == realized,
            start_next == (realized == 0),
    {
        self.spawn_count = realized;
        realized == 0
    }

    /// Takes one defeat notification.  Returns whether that was the wave's
    /// last opponent, in which case the caller must start the next wave.
    pub fn remove_spawn(&mut self) -> (start_next: bool)
        requires
            old(self).spawn_count >= 1,
        ensures
            final(self).wave == old(self).wave,
            final(self).spawn_count == old(self).spawn_count - 1,
            start_next == (final(self).spawn_count == 0),
    {
        self.spawn_count = self.spawn_count - 1;
        self.spawn_count == 0
    }

    /// The one-based number of the running wave, zero before any wave.
    pub fn wave_num(&self) -> (r: u64)
        requires
            self.wave matches Some(w) ==> w.index() < u64::MAX,
        ensures
            match self.wave {
                Some(w) => r == w.index() + 1,
                None => r == 0,
            },
    {
        match self.wave.as_ref() {
            Some(wave) => wave.num(),
            None => 0,
        }
    }
}

} // verus!
