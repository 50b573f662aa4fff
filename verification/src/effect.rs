//! Whether a particle effect is still running: an emitter is active while
//! it may emit another burst, while one of its sub-emitters is active, or
//! while it has live particles. The particle simulation itself is left to
//! the caller.
use vstd::prelude::*;

verus! {

/// The state of an emitter that decides whether it is still active.
pub struct EmitterActivity {
    /// Whether the emitter may still emit.
    pub enable_emit: bool,
    /// The bursts emitted so far.
    pub burst_count: u32,
    /// The most bursts the emitter may emit, if limited.
    pub max_bursts: Option<u32>,
    /// The number of live particles.
    pub live_particles: usize,
    /// The emitter's sub-emitters.
    pub subs: Vec<EmitterActivity>,
}

/// Whether an emitter may emit another burst.
pub open spec fn spec_may_emit(e: EmitterActivity) -> bool {
    e.enable_emit && match e.max_bursts {
        Some(m) => e.burst_count < m,
        None => true,
    }
}

/// Whether an emitter is active.
pub open spec fn spec_emitter_active(e: EmitterActivity) -> bool
    decreases e, 1nat, 0int,
{
    spec_may_emit(e) || spec_any_sub_active(e, e.subs@.len() as int) || e.live_particles > 0
}

/// Whether one of the first `k` sub-emitters of `e` is active.
pub open spec fn spec_any_sub_active(e: EmitterActivity, k: int) -> bool
    decreases e, 0nat, k,
{
    if k <= 0 || k > e.subs@.len() {
        false
    } else {
        spec_any_sub_active(e, k - 1) || spec_emitter_active(e.subs@[k - 1])
    }
}

/// A sub-emitter found active among the first `k` stays found among the
/// first `m >= k`.
proof fn lemma_any_sub_active_grows(e: EmitterActivity, k: int, m: int)
    requires
        0 <= k <= m <= e.subs@.len(),
        spec_any_sub_active(e, k),
    ensures
        spec_any_sub_active(e, m),
    decreases m - k,
{
    if k < m {
        lemma_any_sub_active_grows(e, k, m - 1);
    }
}

impl EmitterActivity {
    /// Whether the emitter emits when its burst timer fires: it may emit
    /// another burst and its particle limit is not zero.
    pub fn emits_bursts(&self, max_particles: u32) -> (r: bool)
        ensures
            r == (spec_may_emit(*self) && max_particles != 0),
    {
        if !self.enable_emit {
            return false;
        }
        if let Some(m) = self.max_bursts {
            if self.burst_count >= m {
                return false;
            }
        }
        max_particles != 0
    }

    /// Whether the emitter is active: it may emit another burst, one of its
    /// sub-emitters is active, or it has live particles.
    pub fn active(&self) -> (r: bool)
        ensures
            r == spec_emitter_active(*self),
        decreases *self,
    {
        if self.enable_emit {
            match self.max_bursts {
                Some(m) => {
                    if self.burst_count < m {
                        return true;
                    }
                },
                None => {
                    return true;
                },
            }
        }
        let mut i: usize = 0;
        while i < self.subs.len()
            invariant
                i <= self.subs@.len(),
                !spec_any_sub_active(*self, i as int),
            decreases self.subs@.len() - i,
        {
            proof {
                assert(decreases_to!(*self => self.subs@[i as int]));
            }
            if self.subs[i].active() {
                proof {
                    lemma_any_sub_active_grows(*self, i + 1, self.subs@.len() as int);
                }
                return true;
            }
            i = i + 1;
        }
        self.live_particles > 0
    }
}

/// Whether an effect is active: one of its emitters is.
pub fn effect_active(emitters: &Vec<EmitterActivity>) -> (r: bool)
    ensures
        r == exists|i: int| 0 <= i < emitters@.len() && spec_emitter_active(#[trigger] emitters@[i]),
{
    let mut i: usize = 0;
    while i < emitters.len()
        invariant
            i <= emitters@.len(),
            forall|j: int| 0 <= j < i ==> !spec_emitter_active(#[trigger] emitters@[j]),
        decreases emitters@.len() - i,
    {
        if emitters[i].active() {
            return true;
        }
        i = i + 1;
    }
    false
}

/// An emitter stays active while any of its sub-emitters is active.
pub proof fn law_active_sub_keeps_parent_active(e: EmitterActivity, i: int)
    requires
        0 <= i < e.subs@.len(),
        spec_emitter_active(e.subs@[i]),
    ensures
        spec_emitter_active(e),
{
    assert(spec_any_sub_active(e, i + 1));
    lemma_any_sub_active_grows(e, i + 1, e.subs@.len() as int);
}

/// An emitter that may still emit a burst, or that has live particles, is
/// active; one that is switched off, or has used up its bursts, may not
/// emit; and one that may not emit, has no live particles and no
/// sub-emitters has stopped.
pub proof fn law_activity_rules(e: EmitterActivity)
    ensures
        spec_may_emit(e) ==> spec_emitter_active(e),
        e.live_particles > 0 ==> spec_emitter_active(e),
        !e.enable_emit ==> !spec_may_emit(e),
        (e.max_bursts matches Some(m) && e.burst_count >= m) ==> !spec_may_emit(e),
        (e.enable_emit && e.max_bursts is None) ==> spec_may_emit(e),
        (!spec_may_emit(e) && e.live_particles == 0 && e.subs@.len() == 0) ==> !spec_emitter_active(e),
{
    assert(!spec_any_sub_active(e, 0));
}

} // verus!
