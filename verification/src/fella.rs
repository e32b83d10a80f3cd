//! The agents ("fellas") and the simulation that drives them: an explicit
//! agent table addressed by generation-checked handles, the per-step
//! pipeline (clock advance, motive decay, action selection, movement,
//! idle wandering), and the user-selection side channel.

use vstd::prelude::*;

use crate::geometry::{distance_milli, move_toward, spec_distance, spec_moved_position};
use crate::motives::{
    clamp_unit, default_decay_view, scaled_change, BasicMotive, BasicMotives, MOTIVE_COUNT,
    MOTIVE_DEFAULT, MOTIVE_SCALE, MAX_DECAY_STEP_MILLIS,
};
use crate::time::{SimulationTime, TimeScale};
use crate::utility::{is_best_selection, select_best};
use crate::world::{WorldObject, WorldObjectCatalog, WorldPosition};
use crate::SimError;

verus! {

/// An agent counts as arrived when it is closer to its target than this,
/// in milliunits (0.1 world units).
pub const ARRIVAL_EPSILON_MILLI: u64 = 100;

/// Ticks that must elapse after a target assignment before arrival has any
/// effect, against jitter.
pub const WANDER_COOLDOWN_TICKS: u64 = 2;

/// Idle wander targets are drawn with `x` in `[-8, 8)` world units...
pub const WANDER_X_LIMIT_MILLI: i64 = 8000;

/// ...and `y` in `[-4, 4)` world units.
pub const WANDER_Y_LIMIT_MILLI: i64 = 4000;

/// Largest real-time delta one step accepts, in milliseconds; it keeps the
/// scaled simulation delta within what one decay step can take.
pub const MAX_REAL_STEP_MILLIS: u64 = 250_000_000_000;

/// An agent's display label.
#[derive(Debug, Clone)]
pub struct Named(pub String);

/// An agent's current destination and the time it was assigned, used both
/// for idle wandering and for action-directed movement.
#[derive(Debug, Clone, Copy, PartialEq, Eq, Structural)]
pub struct WalkTarget {
    pub target: WorldPosition,
    pub assigned_at: SimulationTime,
}

/// An agent's in-progress commitment to travel to and use one object.
/// At most one per agent; cleared on arrival or reassignment.
#[derive(Debug, Clone, Copy, PartialEq, Eq, Structural)]
pub struct PendingAction {
    pub object_id: u64,
    pub assigned_at: SimulationTime,
}

/// One autonomous simulated character.
#[derive(Debug)]
pub struct Fella {
    pub named: Named,
    pub motives: BasicMotives,
    pub position: WorldPosition,
    pub walk_target: WalkTarget,
    pub pending_action: Option<PendingAction>,
}

/// A generation-checked reference to an agent table slot: a handle for a
/// despawned agent goes stale and every lookup with it reports `NotFound`.
#[derive(Debug, Clone, Copy, PartialEq, Eq, Structural)]
pub struct AgentHandle {
    pub index: usize,
    pub generation: u64,
}

/// One slot of the agent table. The generation grows on despawn, so stale
/// handles can never reach a later occupant.
#[derive(Debug)]
pub struct AgentSlot {
    pub generation: u64,
    pub fella: Option<Fella>,
}

/// Which agent the user currently has selected; ambient state for display
/// queries, with no effect on simulation behavior.
#[derive(Debug, Clone, Copy, PartialEq, Eq, Structural)]
pub struct SelectedFella(pub Option<AgentHandle>);

impl Fella {
    /// Well-formed against the world it lives in: motives and positions in
    /// bounds, no timestamp ahead of the clock, and a pending action only
    /// for an object the catalog holds.
    pub open spec fn wf(&self, catalog: Seq<WorldObject>, clock: SimulationTime) -> bool {
        &&& self.motives.wf()
        &&& self.position.wf()
        &&& self.walk_target.target.wf()
        &&& self.walk_target.assigned_at.millis <= clock.millis
        &&& match self.pending_action {
            None => true,
            Some(p) => p.assigned_at.millis <= clock.millis && exists|i: int|
                0 <= i < catalog.len() && (#[trigger] catalog[i]).id == p.object_id,
        }
    }
}

/// The whole simulation: the clock, the immutable world object catalog, the
/// agent table, and the ambient user selection.
#[derive(Debug)]
pub struct Simulation {
    pub clock: SimulationTime,
    pub catalog: WorldObjectCatalog,
    pub agents: Vec<AgentSlot>,
    pub selected: SelectedFella,
}

impl Simulation {
    /// Every slot's occupant is well-formed against the catalog and clock.
    pub open spec fn wf(&self) -> bool {
        &&& self.catalog.wf()
        &&& forall|i: int|
            0 <= i < self.agents@.len() ==> match (#[trigger] self.agents@[i]).fella {
                Some(f) => f.wf(self.catalog@, self.clock),
                None => true,
            }
    }

    /// A live handle: in range, of the current generation, and occupied.
    pub open spec fn valid_handle(&self, h: AgentHandle) -> bool {
        &&& h.index < self.agents@.len()
        &&& self.agents@[h.index as int].generation == h.generation
        &&& self.agents@[h.index as int].fella is Some
    }

    /// The agent a live handle refers to.
    pub open spec fn agent_of(&self, h: AgentHandle) -> Fella {
        self.agents@[h.index as int].fella->Some_0
    }

    /// A new simulation over a fixed catalog, with the clock at its default
    /// and no agents.
    pub fn new(catalog: WorldObjectCatalog) -> (r: Simulation)
        requires
            catalog.wf(),
        ensures
            r.wf(),
            r.catalog == catalog,
            r.agents@.len() == 0,
            r.clock.millis == crate::time::DEFAULT_TICK * crate::time::MILLIS_PER_TICK,
            r.selected == SelectedFella(None::<AgentHandle>),
    {
        Simulation {
            clock: SimulationTime::default(),
            catalog,
            agents: Vec::new(),
            selected: SelectedFella(None),
        }
    }

    /// Creates an agent at `position`: every motive at the spawn default,
    /// the walk target at the spawn position, nothing pending.
    pub fn spawn_agent(&mut self, name: String, position: WorldPosition) -> (h: AgentHandle)
        requires
            old(self).wf(),
            position.wf(),
        ensures
            final(self).wf(),
            final(self).valid_handle(h),
            h.index == old(self).agents@.len(),
            final(self).agents@.len() == old(self).agents@.len() + 1,
            forall|i: int|
                0 <= i < old(self).agents@.len() ==> final(self).agents@[i] == old(self).agents@[i],
            final(self).clock == old(self).clock,
            final(self).catalog == old(self).catalog,
            final(self).selected == old(self).selected,
            final(self).agent_of(h).named.0@ == name@,
            final(self).agent_of(h).position == position,
            final(self).agent_of(h).motives@ == Seq::new(
                MOTIVE_COUNT as nat,
                |i: int| MOTIVE_DEFAULT as int,
            ),
            final(self).agent_of(h).walk_target == (WalkTarget {
                target: position,
                assigned_at: old(self).clock,
            }),
            final(self).agent_of(h).pending_action is None,
    {
        let h = AgentHandle { index: self.agents.len(), generation: 0 };
        let fella = Fella {
            named: Named(name),
            motives: BasicMotives::new(),
            position,
            walk_target: WalkTarget { target: position, assigned_at: self.clock },
            pending_action: None,
        };
        self.agents.push(AgentSlot { generation: 0, fella: Some(fella) });
        h
    }

    /// Destroys the agent a live handle refers to and retires the slot's
    /// generation; a stale or unknown handle reports `NotFound`.
    pub fn despawn_agent(&mut self, h: AgentHandle) -> (r: Result<(), SimError>)
        requires
            old(self).wf(),
        ensures
            final(self).wf(),
            old(self).valid_handle(h) && h.generation < u64::MAX ==> r is Ok && final(self).agents@ == old(self).agents@.update(
                h.index as int,
                AgentSlot { generation: (h.generation + 1) as u64, fella: None::<Fella> },
            ),
            !(old(self).valid_handle(h) && h.generation < u64::MAX) ==> r == Err::<
                (),
                SimError,
            >(SimError::NotFound) && *final(self) == *old(self),
            final(self).clock == old(self).clock,
            final(self).catalog == old(self).catalog,
            final(self).selected == old(self).selected,
    {
        if h.index >= self.agents.len() {
            return Err(SimError::NotFound);
        }
        let occupied: bool = self.agents[h.index].fella.is_some();
        if self.agents[h.index].generation != h.generation || !occupied {
            return Err(SimError::NotFound);
        }
        if h.generation == u64::MAX {
            // The generation counter cannot retire this slot a second time;
            // leave the slot unusable rather than recycle handles.
            return Err(SimError::NotFound);
        }
        self.agents[h.index] = AgentSlot { generation: h.generation + 1, fella: None };
        Ok(())
    }

    /// The current clamped value of one motive, for display.
    pub fn motive_of(&self, h: AgentHandle, motive: BasicMotive) -> (r: Result<i64, SimError>)
        requires
            self.wf(),
        ensures
            self.valid_handle(h) ==> r == Ok::<i64, SimError>(
                self.agent_of(h).motives@[motive.spec_index() as int] as i64,
            ),
            !self.valid_handle(h) ==> r == Err::<i64, SimError>(SimError::NotFound),
    {
        if h.index >= self.agents.len() {
            return Err(SimError::NotFound);
        }
        let slot = &self.agents[h.index];
        if slot.generation != h.generation {
            return Err(SimError::NotFound);
        }
        match &slot.fella {
            Some(f) => Ok(f.motives.get(motive)),
            None => Err(SimError::NotFound),
        }
    }

    /// The agent's current position, for display.
    pub fn position_of(&self, h: AgentHandle) -> (r: Result<WorldPosition, SimError>)
        requires
            self.wf(),
        ensures
            self.valid_handle(h) ==> r == Ok::<WorldPosition, SimError>(self.agent_of(h).position),
            !self.valid_handle(h) ==> r == Err::<WorldPosition, SimError>(SimError::NotFound),
    {
        if h.index >= self.agents.len() {
            return Err(SimError::NotFound);
        }
        let slot = &self.agents[h.index];
        if slot.generation != h.generation {
            return Err(SimError::NotFound);
        }
        match &slot.fella {
            Some(f) => Ok(f.position),
            None => Err(SimError::NotFound),
        }
    }

    /// The agent's display label.
    pub fn name_of(&self, h: AgentHandle) -> (r: Result<&String, SimError>)
        requires
            self.wf(),
        ensures
            self.valid_handle(h) ==> (r matches Ok(n) && n@ == self.agent_of(h).named.0@),
            !self.valid_handle(h) ==> r == Err::<&String, SimError>(SimError::NotFound),
    {
        if h.index >= self.agents.len() {
            return Err(SimError::NotFound);
        }
        let slot = &self.agents[h.index];
        if slot.generation != h.generation {
            return Err(SimError::NotFound);
        }
        match &slot.fella {
            Some(f) => Ok(&f.named.0),
            None => Err(SimError::NotFound),
        }
    }

    /// Records which agent the user selected. Ambient display state only:
    /// simulation behavior never reads it.
    pub fn notify_selected(&mut self, h: AgentHandle) -> (r: Result<(), SimError>)
        requires
            old(self).wf(),
        ensures
            final(self).wf(),
            old(self).valid_handle(h) ==> r is Ok && *final(self) == (Simulation {
                selected: SelectedFella(Some(h)),
                ..*old(self)
            }),
            !old(self).valid_handle(h) ==> r == Err::<(), SimError>(SimError::NotFound) && *final(self) == *old(self),
    {
        if h.index >= self.agents.len() {
            return Err(SimError::NotFound);
        }
        let occupied: bool = self.agents[h.index].fella.is_some();
        if self.agents[h.index].generation != h.generation || !occupied {
            return Err(SimError::NotFound);
        }
        self.selected = SelectedFella(Some(h));
        Ok(())
    }
}

/// The two values are the same agent: identical label, motives, position,
/// target and pending action.
pub open spec fn same_fella(a: Fella, b: Fella) -> bool {
    &&& b.named.0@ == a.named.0@
    &&& b.motives@ == a.motives@
    &&& b.position == a.position
    &&& b.walk_target == a.walk_target
    &&& b.pending_action == a.pending_action
}

/// `b` is `a` after one decay phase of `delta_millis` of simulation time:
/// every motive is depleted by its default rate and clamped, nothing else
/// moves.
pub open spec fn spec_decayed(a: Fella, b: Fella, delta_millis: int) -> bool {
    &&& b.named.0@ == a.named.0@
    &&& b.position == a.position
    &&& b.walk_target == a.walk_target
    &&& b.pending_action == a.pending_action
    &&& b.motives@.len() == MOTIVE_COUNT
    &&& forall|i: int|
        0 <= i < MOTIVE_COUNT ==> b.motives@[i] == clamp_unit(
            a.motives@[i] + scaled_change(default_decay_view()[i], delta_millis),
        )
}

/// However long the simulation delta — any value at all — a decay step
/// leaves every motive in the unit interval: the clamp in `spec_decayed`
/// admits no other value.
pub proof fn lemma_decayed_in_unit_interval(a: Fella, b: Fella, delta_millis: int)
    requires
        spec_decayed(a, b, delta_millis),
    ensures
        forall|i: int|
            0 <= i < MOTIVE_COUNT ==> 0 <= #[trigger] b.motives@[i] <= MOTIVE_SCALE as int,
{
    assert forall|i: int|
        0 <= i < MOTIVE_COUNT implies 0 <= #[trigger] b.motives@[i]
        <= MOTIVE_SCALE as int by {
        assert(b.motives@[i] == clamp_unit(
            a.motives@[i] + scaled_change(default_decay_view()[i], delta_millis),
        ));
    }
}

/// The catalog object carrying a given identity (well-defined wherever
/// identities are unique and present).
pub open spec fn spec_object_with_id(c: Seq<WorldObject>, id: u64) -> WorldObject {
    c[choose|i: int| 0 <= i < c.len() && c[i].id == id]
}

/// `b` is `a` after one action-selection phase against catalog `c` at time
/// `clock`:
/// * an idle agent adopts the best selection if one clears the threshold
///   (pending action and walk target point at it, stamped now), else stays
///   as it is;
/// * a seeking agent that has arrived (within the epsilon, after the
///   anti-jitter cooldown) consumes the object's effect into its motives
///   and returns to idle; otherwise it keeps seeking unchanged.
pub open spec fn spec_selector_stepped(
    a: Fella,
    b: Fella,
    c: Seq<WorldObject>,
    clock: SimulationTime,
) -> bool {
    match a.pending_action {
        None => exists|r: Option<WorldObject>|
            {
                &&& #[trigger] is_best_selection(c, a.motives@, a.position, r)
                &&& match r {
                    None => same_fella(a, b),
                    Some(o) => {
                        &&& b.named.0@ == a.named.0@
                        &&& b.motives@ == a.motives@
                        &&& b.position == a.position
                        &&& b.pending_action == Some(
                            PendingAction { object_id: o.id, assigned_at: clock },
                        )
                        &&& b.walk_target == (WalkTarget {
                            target: o.position,
                            assigned_at: clock,
                        })
                    },
                }
            },
        Some(p) => {
            let o = spec_object_with_id(c, p.object_id);
            if spec_distance(a.position, o.position) < ARRIVAL_EPSILON_MILLI as int
                && clock.spec_ticks() - p.assigned_at.spec_ticks()
                >= WANDER_COOLDOWN_TICKS as int {
                &&& b.named.0@ == a.named.0@
                &&& b.position == a.position
                &&& b.walk_target == a.walk_target
                &&& b.pending_action is None
                &&& b.motives@.len() == MOTIVE_COUNT
                &&& forall|i: int|
                    0 <= i < MOTIVE_COUNT ==> b.motives@[i] == clamp_unit(
                        a.motives@[i] + o.effect@[i],
                    )
            } else {
                same_fella(a, b)
            }
        },
    }
}

/// `b` is `a` after one movement phase with step length `step_len`
/// milliunits (speed one world unit per simulated second).
pub open spec fn spec_moved_step(a: Fella, b: Fella, step_len: int) -> bool {
    &&& b.named.0@ == a.named.0@
    &&& b.motives@ == a.motives@
    &&& b.walk_target == a.walk_target
    &&& b.pending_action == a.pending_action
    &&& b.position == spec_moved_position(a.position, a.walk_target.target, step_len)
}

/// An idle wander target is due: nothing pending, the current target is
/// reached, and the anti-jitter cooldown has elapsed.
pub open spec fn spec_wander_due(f: Fella, clock: SimulationTime) -> bool {
    &&& f.pending_action is None
    &&& spec_distance(f.position, f.walk_target.target) < ARRIVAL_EPSILON_MILLI as int
    &&& clock.spec_ticks() - f.walk_target.assigned_at.spec_ticks()
        >= WANDER_COOLDOWN_TICKS as int
}

/// `b` is `a` after one wander phase: when a wander target is due, the walk
/// target moves somewhere within the wander bounds and is stamped now;
/// otherwise nothing changes. Where exactly it moves is up to the random
/// source.
pub open spec fn spec_wander_stepped(a: Fella, b: Fella, clock: SimulationTime) -> bool {
    if spec_wander_due(a, clock) {
        &&& b.named.0@ == a.named.0@
        &&& b.motives@ == a.motives@
        &&& b.position == a.position
        &&& b.pending_action == a.pending_action
        &&& b.walk_target.assigned_at == clock
        &&& -WANDER_X_LIMIT_MILLI <= b.walk_target.target.x < WANDER_X_LIMIT_MILLI
        &&& -WANDER_Y_LIMIT_MILLI <= b.walk_target.target.y < WANDER_Y_LIMIT_MILLI
    } else {
        same_fella(a, b)
    }
}

/// One whole non-paused step for a single agent: the four phases in their
/// fixed order — motive decay, action selection, movement, idle wandering —
/// with the step's simulation delta, against the catalog and the already
/// advanced clock.
pub open spec fn spec_stepped_agent(
    x: Fella,
    y: Fella,
    c: Seq<WorldObject>,
    clock: SimulationTime,
    delta: int,
) -> bool {
    exists|m1: Fella, m2: Fella, m3: Fella|
        {
            &&& spec_decayed(x, m1, delta)
            &&& #[trigger] spec_selector_stepped(m1, m2, c, clock)
            &&& #[trigger] spec_moved_step(m2, m3, delta)
            &&& spec_wander_stepped(m3, y, clock)
        }
}

/// Relies on rand's `Rng::gen_range` over `lo..hi`: the sample always lies
/// in the half-open range. An empty range would panic there, so it is
/// excluded here.
#[verifier::external_body]
fn random_in_range(lo: i64, hi: i64) -> (r: i64)
    requires
        lo < hi,
    ensures
        lo <= r < hi,
{
    rand::Rng::gen_range(&mut rand::thread_rng(), lo..hi)
}

impl Simulation {
    /// Depletes every living agent's motives by the default per-second
    /// rates over `delta_millis` of simulation time.
    pub fn apply_need_decay(&mut self, delta_millis: u64)
        requires
            old(self).wf(),
            delta_millis <= MAX_DECAY_STEP_MILLIS,
        ensures
            final(self).wf(),
            final(self).clock == old(self).clock,
            final(self).catalog == old(self).catalog,
            final(self).selected == old(self).selected,
            final(self).agents@.len() == old(self).agents@.len(),
            forall|i: int|
                0 <= i < old(self).agents@.len() ==> (#[trigger] final(self).agents@[i]).generation
                    == old(self).agents@[i].generation && match (
                    old(self).agents@[i].fella,
                    final(self).agents@[i].fella,
                ) {
                    (Some(x), Some(y)) => spec_decayed(x, y, delta_millis as int),
                    (None, None) => true,
                    _ => false,
                },
    {
        let n: usize = self.agents.len();
        let mut i: usize = 0;
        while i < n
            invariant
                i <= n,
                n == self.agents@.len(),
                delta_millis <= MAX_DECAY_STEP_MILLIS,
                self.agents@.len() == old(self).agents@.len(),
                self.clock == old(self).clock,
                self.catalog == old(self).catalog,
                self.selected == old(self).selected,
                self.wf(),
                forall|k: int| i <= k < n ==> self.agents@[k] == old(self).agents@[k],
                forall|k: int|
                    0 <= k < i ==> (#[trigger] self.agents@[k]).generation == old(
                        self,
                    ).agents@[k].generation && match (
                        old(self).agents@[k].fella,
                        self.agents@[k].fella,
                    ) {
                        (Some(x), Some(y)) => spec_decayed(x, y, delta_millis as int),
                        (None, None) => true,
                        _ => false,
                    },
            decreases n - i,
        {
            let slot = &mut self.agents[i];
            match &mut slot.fella {
                Some(f) => {
                    f.motives.decay(delta_millis);
                },
                None => {},
            }
            i = i + 1;
        }
    }

    /// Runs the per-agent action state machine once: idle agents pick the
    /// best-scoring object above the threshold (if any) and start seeking
    /// it; seeking agents that have arrived use the object (its effect is
    /// applied to their motives) and return to idle.
    pub fn select_actions(&mut self)
        requires
            old(self).wf(),
        ensures
            final(self).wf(),
            final(self).clock == old(self).clock,
            final(self).catalog == old(self).catalog,
            final(self).selected == old(self).selected,
            final(self).agents@.len() == old(self).agents@.len(),
            forall|i: int|
                0 <= i < old(self).agents@.len() ==> (#[trigger] final(self).agents@[i]).generation
                    == old(self).agents@[i].generation && match (
                    old(self).agents@[i].fella,
                    final(self).agents@[i].fella,
                ) {
                    (Some(x), Some(y)) => spec_selector_stepped(
                        x,
                        y,
                        old(self).catalog@,
                        old(self).clock,
                    ),
                    (None, None) => true,
                    _ => false,
                },
    {
        let n: usize = self.agents.len();
        let mut i: usize = 0;
        while i < n
            invariant
                i <= n,
                n == self.agents@.len(),
                self.agents@.len() == old(self).agents@.len(),
                self.clock == old(self).clock,
                self.catalog == old(self).catalog,
                self.selected == old(self).selected,
                self.wf(),
                forall|k: int| i <= k < n ==> self.agents@[k] == old(self).agents@[k],
                forall|k: int|
                    0 <= k < i ==> (#[trigger] self.agents@[k]).generation == old(
                        self,
                    ).agents@[k].generation && match (
                        old(self).agents@[k].fella,
                        self.agents@[k].fella,
                    ) {
                        (Some(x), Some(y)) => spec_selector_stepped(
                            x,
                            y,
                            old(self).catalog@,
                            old(self).clock,
                        ),
                        (None, None) => true,
                        _ => false,
                    },
            decreases n - i,
        {
            let ghost before = self.agents@[i as int].fella;
            let has_pending: bool = match &self.agents[i].fella {
                Some(f) => f.pending_action.is_some(),
                None => false,
            };
            let is_live: bool = self.agents[i].fella.is_some();
            if is_live && !has_pending {
                // Idle: evaluate the catalog.
                let chosen: Option<usize> = match &self.agents[i].fella {
                    Some(f) => select_best(&self.catalog, &f.motives, &f.position),
                    None => None,
                };
                match chosen {
                    Some(j) => {
                        let object_id: u64 = self.catalog.object_at(j).id;
                        let object_position: WorldPosition = self.catalog.object_at(j).position;
                        let now: SimulationTime = self.clock;
                        let slot = &mut self.agents[i];
                        match &mut slot.fella {
                            Some(f) => {
                                f.pending_action = Some(
                                    PendingAction { object_id, assigned_at: now },
                                );
                                f.walk_target = WalkTarget {
                                    target: object_position,
                                    assigned_at: now,
                                };
                            },
                            None => {},
                        }
                        proof {
                            let x = before->Some_0;
                            let y = self.agents@[i as int].fella->Some_0;
                            assert(is_best_selection(
                                self.catalog@,
                                x.motives@,
                                x.position,
                                Some(self.catalog@[j as int]),
                            ));
                            assert(spec_selector_stepped(x, y, self.catalog@, self.clock));
                        }
                    },
                    None => {
                        proof {
                            let x = before->Some_0;
                            assert(is_best_selection(
                                self.catalog@,
                                x.motives@,
                                x.position,
                                None::<WorldObject>,
                            ));
                            assert(spec_selector_stepped(x, x, self.catalog@, self.clock));
                        }
                    },
                }
            } else if is_live && has_pending {
                // Seeking: check for arrival.
                let (object_id, assigned_at): (u64, SimulationTime) = match &self.agents[i].fella {
                    Some(f) => match &f.pending_action {
                        Some(p) => (p.object_id, p.assigned_at),
                        None => (0, SimulationTime { millis: 0 }),
                    },
                    None => (0, SimulationTime { millis: 0 }),
                };
                match self.catalog.find_by_id(object_id) {
                    Some(j) => {
                        proof {
                            let k = choose|k: int|
                                0 <= k < self.catalog@.len() && self.catalog@[k].id == object_id;
                            assert(self.catalog@[j as int].id == object_id);
                            assert(k == j as int);
                            assert(spec_object_with_id(self.catalog@, object_id)
                                == self.catalog@[j as int]);
                        }
                        let arrived: bool = match &self.agents[i].fella {
                            Some(f) => {
                                let d: u64 = distance_milli(
                                    &f.position,
                                    &self.catalog.object_at(j).position,
                                );
                                d < ARRIVAL_EPSILON_MILLI
                            },
                            None => false,
                        };
                        let waited: bool = match self.clock.time_since_ticks(&assigned_at) {
                            Ok(t) => t >= WANDER_COOLDOWN_TICKS,
                            Err(_) => false,
                        };
                        if arrived && waited {
                            // Using: consume the effect, return to idle.
                            let effect = &self.catalog.0[j].effect;
                            let slot = &mut self.agents[i];
                            match &mut slot.fella {
                                Some(f) => {
                                    f.motives.add(effect);
                                    f.pending_action = None;
                                },
                                None => {},
                            }
                        }
                        proof {
                            let x = before->Some_0;
                            let y = self.agents@[i as int].fella->Some_0;
                            assert(spec_selector_stepped(x, y, self.catalog@, self.clock));
                        }
                    },
                    None => {
                        proof {
                            // The invariant ties every pending action to a
                            // catalog object, so the lookup cannot fail.
                            assert(false);
                        }
                    },
                }
            }
            i = i + 1;
        }
    }

    /// Moves every living agent one step toward its walk target at speed
    /// one world unit per simulated second; a degenerate zero-length
    /// direction skips the update for this step.
    pub fn move_to_walk_target(&mut self, delta_millis: u64)
        requires
            old(self).wf(),
        ensures
            final(self).wf(),
            final(self).clock == old(self).clock,
            final(self).catalog == old(self).catalog,
            final(self).selected == old(self).selected,
            final(self).agents@.len() == old(self).agents@.len(),
            forall|i: int|
                0 <= i < old(self).agents@.len() ==> (#[trigger] final(self).agents@[i]).generation
                    == old(self).agents@[i].generation && match (
                    old(self).agents@[i].fella,
                    final(self).agents@[i].fella,
                ) {
                    (Some(x), Some(y)) => spec_moved_step(x, y, delta_millis as int),
                    (None, None) => true,
                    _ => false,
                },
    {
        let n: usize = self.agents.len();
        let mut i: usize = 0;
        while i < n
            invariant
                i <= n,
                n == self.agents@.len(),
                self.agents@.len() == old(self).agents@.len(),
                self.clock == old(self).clock,
                self.catalog == old(self).catalog,
                self.selected == old(self).selected,
                self.wf(),
                forall|k: int| i <= k < n ==> self.agents@[k] == old(self).agents@[k],
                forall|k: int|
                    0 <= k < i ==> (#[trigger] self.agents@[k]).generation == old(
                        self,
                    ).agents@[k].generation && match (
                        old(self).agents@[k].fella,
                        self.agents@[k].fella,
                    ) {
                        (Some(x), Some(y)) => spec_moved_step(x, y, delta_millis as int),
                        (None, None) => true,
                        _ => false,
                    },
            decreases n - i,
        {
            let moved: Option<WorldPosition> = match &self.agents[i].fella {
                Some(f) => Some(move_toward(&f.position, &f.walk_target.target, delta_millis)),
                None => None,
            };
            match moved {
                Some(p) => {
                    let slot = &mut self.agents[i];
                    match &mut slot.fella {
                        Some(f) => {
                            f.position = p;
                        },
                        None => {},
                    }
                },
                None => {},
            }
            i = i + 1;
        }
    }

    /// Gives every idle agent that has reached its walk target (and sat out
    /// the anti-jitter cooldown) a fresh random wander target within the
    /// world's wander bounds.
    pub fn assign_random_walk_target(&mut self)
        requires
            old(self).wf(),
        ensures
            final(self).wf(),
            final(self).clock == old(self).clock,
            final(self).catalog == old(self).catalog,
            final(self).selected == old(self).selected,
            final(self).agents@.len() == old(self).agents@.len(),
            forall|i: int|
                0 <= i < old(self).agents@.len() ==> (#[trigger] final(self).agents@[i]).generation
                    == old(self).agents@[i].generation && match (
                    old(self).agents@[i].fella,
                    final(self).agents@[i].fella,
                ) {
                    (Some(x), Some(y)) => spec_wander_stepped(x, y, old(self).clock),
                    (None, None) => true,
                    _ => false,
                },
    {
        let n: usize = self.agents.len();
        let mut i: usize = 0;
        while i < n
            invariant
                i <= n,
                n == self.agents@.len(),
                self.agents@.len() == old(self).agents@.len(),
                self.clock == old(self).clock,
                self.catalog == old(self).catalog,
                self.selected == old(self).selected,
                self.wf(),
                forall|k: int| i <= k < n ==> self.agents@[k] == old(self).agents@[k],
                forall|k: int|
                    0 <= k < i ==> (#[trigger] self.agents@[k]).generation == old(
                        self,
                    ).agents@[k].generation && match (
                        old(self).agents@[k].fella,
                        self.agents@[k].fella,
                    ) {
                        (Some(x), Some(y)) => spec_wander_stepped(x, y, old(self).clock),
                        (None, None) => true,
                        _ => false,
                    },
            decreases n - i,
        {
            let due: bool = match &self.agents[i].fella {
                Some(f) => {
                    if f.pending_action.is_some() {
                        false
                    } else {
                        let d: u64 = distance_milli(&f.position, &f.walk_target.target);
                        let waited: bool = match self.clock.time_since_ticks(
                            &f.walk_target.assigned_at,
                        ) {
                            Ok(t) => t >= WANDER_COOLDOWN_TICKS,
                            Err(_) => false,
                        };
                        d < ARRIVAL_EPSILON_MILLI && waited
                    }
                },
                None => false,
            };
            if due {
                let x: i64 = random_in_range(-WANDER_X_LIMIT_MILLI, WANDER_X_LIMIT_MILLI);
                let y: i64 = random_in_range(-WANDER_Y_LIMIT_MILLI, WANDER_Y_LIMIT_MILLI);
                let now: SimulationTime = self.clock;
                let slot = &mut self.agents[i];
                match &mut slot.fella {
                    Some(f) => {
                        f.walk_target = WalkTarget { target: WorldPosition { x, y }, assigned_at: now };
                    },
                    None => {},
                }
            }
            i = i + 1;
        }
    }

    /// Advances the whole simulation by one frame: the real delta is scaled
    /// by the time scale, then, in fixed order, the clock advances, motives
    /// decay, actions are selected and applied, agents move, and idle
    /// wander targets are reassigned. While paused there is no simulation
    /// delta and the step changes nothing at all.
    pub fn step(&mut self, real_delta_millis: u64, scale: TimeScale)
        requires
            old(self).wf(),
            scale != TimeScale::Paused ==> real_delta_millis <= MAX_REAL_STEP_MILLIS && old(
                self,
            ).clock.millis + real_delta_millis * 4 <= u64::MAX,
        ensures
            final(self).wf(),
            final(self).catalog == old(self).catalog,
            final(self).selected == old(self).selected,
            final(self).agents@.len() == old(self).agents@.len(),
            scale == TimeScale::Paused ==> *final(self) == *old(self),
            scale != TimeScale::Paused ==> final(self).clock.millis == old(self).clock.millis
                + real_delta_millis * scale.spec_multiplier(),
            forall|i: int|
                0 <= i < old(self).agents@.len() ==> (#[trigger] final(self).agents@[i]).generation
                    == old(self).agents@[i].generation && match (
                    old(self).agents@[i].fella,
                    final(self).agents@[i].fella,
                ) {
                    (Some(x), Some(y)) => y.named.0@ == x.named.0@ && (scale != TimeScale::Paused
                        ==> spec_stepped_agent(
                        x,
                        y,
                        old(self).catalog@,
                        final(self).clock,
                        real_delta_millis * scale.spec_multiplier(),
                    )),
                    (None, None) => true,
                    _ => false,
                },
    {
        let mut simulation_delta = crate::time::SimulationDeltaTime(None);
        simulation_delta.update(&scale, real_delta_millis);
        let d: u64 = match simulation_delta.0 {
            Some(d) => d,
            None => {
                return ;
            },
        };
        proof {
            assert(real_delta_millis as int * scale.spec_multiplier() as int <= real_delta_millis
                as int * 4) by (nonlinear_arith)
                requires
                    scale.spec_multiplier() <= 4,
            ;
            assert(real_delta_millis * 4 <= MAX_REAL_STEP_MILLIS * 4) by (nonlinear_arith)
                requires
                    real_delta_millis <= MAX_REAL_STEP_MILLIS,
            ;
            assert(d == real_delta_millis * scale.spec_multiplier());
        }
        self.clock.update(d);
        proof {
            assert(self.wf());
        }
        let ghost a0 = self.agents@;
        let ghost cat = self.catalog@;
        let ghost clock_now = self.clock;
        self.apply_need_decay(d);
        let ghost a1 = self.agents@;
        self.select_actions();
        let ghost a2 = self.agents@;
        self.move_to_walk_target(d);
        let ghost a3 = self.agents@;
        self.assign_random_walk_target();
        proof {
            assert forall|i: int| #![trigger a0[i]] 0 <= i < a0.len() implies match (
                a0[i].fella,
                self.agents@[i].fella,
            ) {
                (Some(x), Some(y)) => y.named.0@ == x.named.0@ && spec_stepped_agent(
                    x,
                    y,
                    cat,
                    clock_now,
                    d as int,
                ),
                (None, None) => true,
                _ => false,
            } by {
                assert(a1[i].generation == a0[i].generation);
                assert(a2[i].generation == a1[i].generation);
                assert(a3[i].generation == a2[i].generation);
                assert(self.agents@[i].generation == a3[i].generation);
                if a0[i].fella is Some {
                    let x = a0[i].fella->Some_0;
                    let m1 = a1[i].fella->Some_0;
                    let m2 = a2[i].fella->Some_0;
                    let m3 = a3[i].fella->Some_0;
                    let y = self.agents@[i].fella->Some_0;
                    assert(spec_decayed(x, m1, d as int));
                    assert(spec_selector_stepped(m1, m2, cat, clock_now));
                    assert(spec_moved_step(m2, m3, d as int));
                    assert(spec_wander_stepped(m3, y, clock_now));
                    assert(spec_stepped_agent(x, y, cat, clock_now, d as int));
                }
            }
        }
    }
}

/// Spawns a named fella into the simulation at a world position.
pub fn create_fella(
    sim: &mut Simulation,
    name: String,
    position: WorldPosition,
) -> (h: AgentHandle)
    requires
        old(sim).wf(),
        position.wf(),
    ensures
        final(sim).wf(),
        final(sim).valid_handle(h),
        h.index == old(sim).agents@.len(),
        final(sim).agents@.len() == old(sim).agents@.len() + 1,
        forall|i: int|
            0 <= i < old(sim).agents@.len() ==> final(sim).agents@[i] == old(sim).agents@[i],
        final(sim).clock == old(sim).clock,
        final(sim).catalog == old(sim).catalog,
        final(sim).selected == old(sim).selected,
        final(sim).agent_of(h).named.0@ == name@,
        final(sim).agent_of(h).position == position,
        final(sim).agent_of(h).motives@ == Seq::new(
            MOTIVE_COUNT as nat,
            |i: int| MOTIVE_DEFAULT as int,
        ),
        final(sim).agent_of(h).walk_target == (WalkTarget {
            target: position,
            assigned_at: old(sim).clock,
        }),
        final(sim).agent_of(h).pending_action is None,
{
    sim.spawn_agent(name, position)
}

} // verus!
