//! The block-breaking session: while the mine input is held on a sighted
//! block, damage advances one phase every 0.375 s of held time; at the ninth
//! phase the block is destroyed. Releasing the input or losing the target
//! discards all progress.

use crate::block::{Block, Coord, EntityId};
use crate::world::World;
use vstd::arithmetic::div_mod::{lemma_fundamental_div_mod, lemma_fundamental_div_mod_converse};
use vstd::prelude::*;

verus! {

/// Held time per damage phase, in microseconds (0.375 s).
pub const PHASE_DURATION_US: u64 = 375000;

/// The phase at which the target block is destroyed.
pub const BREAK_PHASES: u8 = 9;

/// What the agent does and sees in one tick.
#[derive(Clone, Copy, Debug, PartialEq, Eq, Structural)]
pub struct TickInput {
    /// The mine input is held during this tick.
    pub mine_held: bool,
    /// The entity that the view ray hit this tick, if any.
    pub sighted: Option<EntityId>,
    /// Time elapsed since the previous tick, in microseconds.
    pub delta_us: u64,
}

/// What the host must do to the visuals after a tick.
#[derive(Clone, Copy, Debug)]
pub enum TickEffect {
    /// Nothing visible changes.
    Unchanged,
    /// Replace the damage overlay (six faces) by one for `phase` around the
    /// cube at `coord`, creating it if there is none.
    ShowOverlay { coord: Coord, phase: u8 },
    /// Remove the damage overlay.
    ClearOverlay,
    /// Remove the damage overlay, the block's six faces and the block itself.
    Destroyed { entity: EntityId, block: Block },
}

/// A session of damage on one block.
#[derive(Clone, Copy, Debug)]
pub struct BlockBreaker {
    /// The block being damaged.
    pub block: Block,
    /// Its entity.
    pub block_id: EntityId,
    /// Completed damage phases, below `BREAK_PHASES`.
    pub phase: u8,
    /// Held time within the current phase, in microseconds, below `PHASE_DURATION_US`.
    pub elapsed_time: u64,
}

/// A fresh session on `block`.
pub open spec fn fresh_session(block: Block, block_id: EntityId) -> BlockBreaker {
    BlockBreaker { block, block_id, phase: 0, elapsed_time: 0 }
}

impl BlockBreaker {
    /// The phase and the time within it are in range.
    pub open spec fn wf(&self) -> bool {
        self.phase < BREAK_PHASES && self.elapsed_time < PHASE_DURATION_US
    }

    /// Starts a session on `block`, the block of entity `block_id`, at phase 0.
    pub fn new(block: Block, block_id: EntityId) -> (r: BlockBreaker)
        ensures
            r == fresh_session(block, block_id),
            r.wf(),
    {
        BlockBreaker { block, block_id, phase: 0, elapsed_time: 0 }
    }

    /// Rebinds the session to another block, dropping all progress.
    pub fn initialize(&mut self, block: Block, entity: EntityId)
        ensures
            *final(self) == fresh_session(block, entity),
            final(self).wf(),
    {
        self.block = block;
        self.block_id = entity;
        self.phase = 0;
        self.elapsed_time = 0;
    }

    /// Adds `delta_us` of held time. Each full `PHASE_DURATION_US` completes a
    /// phase and carries the rest over; returns whether the phase reached
    /// `BREAK_PHASES`, which ends the session (its fields are then left as they were).
    pub fn advance(&mut self, delta_us: u64) -> (finished: bool)
        requires
            old(self).wf(),
        ensures
            finished == (advanced_phase(*old(self), delta_us as nat) >= BREAK_PHASES),
            finished ==> *final(self) == *old(self),
            !finished ==> *final(self) == advanced(*old(self), delta_us as nat),
            !finished ==> final(self).wf(),
    {
        let total: u128 = self.elapsed_time as u128 + delta_us as u128;
        let gained: u128 = total / (PHASE_DURATION_US as u128);
        if self.phase as u128 + gained >= BREAK_PHASES as u128 {
            return true;
        }
        self.phase = (self.phase as u128 + gained) as u8;
        self.elapsed_time = (total % (PHASE_DURATION_US as u128)) as u64;
        false
    }
}

/// The phase a session reaches after `delta` more microseconds of held time,
/// before the cut at `BREAK_PHASES`.
pub open spec fn advanced_phase(s: BlockBreaker, delta: nat) -> int {
    s.phase + (s.elapsed_time + delta) / (PHASE_DURATION_US as int)
}

/// The session after `delta` more microseconds of held time, when it does not
/// reach `BREAK_PHASES`.
pub open spec fn advanced(s: BlockBreaker, delta: nat) -> BlockBreaker {
    BlockBreaker {
        phase: advanced_phase(s, delta) as u8,
        elapsed_time: ((s.elapsed_time + delta) % (PHASE_DURATION_US as int)) as u64,
        ..s
    }
}

/// The block that the agent targets in a tick: the sighted entity, when the
/// mine input is held and that entity is a placed block.
pub open spec fn target_of(world: Map<EntityId, Block>, input: TickInput) -> Option<
    (EntityId, Block),
> {
    if input.mine_held && input.sighted is Some && world.contains_key(input.sighted->0) {
        Some((input.sighted->0, world[input.sighted->0]))
    } else {
        None
    }
}

/// One tick of the breaking state machine: the next session, the next set of
/// placed blocks, and what the host must redraw.
pub open spec fn step(
    state: Option<BlockBreaker>,
    world: Map<EntityId, Block>,
    input: TickInput,
) -> (Option<BlockBreaker>, Map<EntityId, Block>, TickEffect) {
    match target_of(world, input) {
        None => (
            None,
            world,
            if state is Some {
                TickEffect::ClearOverlay
            } else {
                TickEffect::Unchanged
            },
        ),
        Some((id, block)) => match state {
            None => (
                Some(fresh_session(block, id)),
                world,
                TickEffect::ShowOverlay { coord: block.coord, phase: 0 },
            ),
            Some(s) => if s.block_id != id {
                (
                    Some(fresh_session(block, id)),
                    world,
                    TickEffect::ShowOverlay { coord: block.coord, phase: 0 },
                )
            } else if advanced_phase(s, input.delta_us as nat) >= BREAK_PHASES {
                (None, world.remove(id), TickEffect::Destroyed { entity: id, block: s.block })
            } else if advanced_phase(s, input.delta_us as nat) == s.phase {
                (Some(advanced(s, input.delta_us as nat)), world, TickEffect::Unchanged)
            } else {
                let next = advanced(s, input.delta_us as nat);
                (
                    Some(next),
                    world,
                    TickEffect::ShowOverlay { coord: s.block.coord, phase: next.phase },
                )
            },
        },
    }
}

/// The block that the agent targets in this tick, looked up in `world`.
fn find_target(world: &World, input: TickInput) -> (r: Option<(EntityId, Block)>)
    ensures
        r == target_of(world@, input),
{
    if !input.mine_held {
        return None;
    }
    match input.sighted {
        None => None,
        Some(id) => match world.get(id) {
            Some(block) => Some((id, block)),
            None => None,
        },
    }
}

/// Runs one tick of block breaking. With the mine input released or no block
/// sighted, the session ends. A block sighted for the first time, or other
/// than the session's, starts a fresh session on it. Otherwise the held time
/// advances the session; when it reaches `BREAK_PHASES` the block is removed
/// from `world` and the session ends.
pub fn control_block(breaker: &mut Option<BlockBreaker>, world: &mut World, input: TickInput) -> (effect:
    TickEffect)
    requires
        *old(breaker) matches Some(b) ==> b.wf(),
    ensures
        (*final(breaker), final(world)@, effect) == step(*old(breaker), old(world)@, input),
        *final(breaker) matches Some(b) ==> b.wf(),
{
    let current = *breaker;
    match find_target(world, input) {
        None => {
            *breaker = None;
            if current.is_some() {
                TickEffect::ClearOverlay
            } else {
                TickEffect::Unchanged
            }
        },
        Some((id, block)) => match current {
            None => {
                *breaker = Some(BlockBreaker::new(block, id));
                TickEffect::ShowOverlay { coord: block.coord, phase: 0 }
            },
            Some(mut session) => {
                if session.block_id != id {
                    session.initialize(block, id);
                    *breaker = Some(session);
                    TickEffect::ShowOverlay { coord: block.coord, phase: 0 }
                } else {
                    let before = session.phase;
                    if session.advance(input.delta_us) {
                        *breaker = None;
                        let _ = world.remove(id);
                        TickEffect::Destroyed { entity: id, block: session.block }
                    } else {
                        *breaker = Some(session);
                        if session.phase == before {
                            TickEffect::Unchanged
                        } else {
                            TickEffect::ShowOverlay { coord: session.block.coord, phase: session.phase }
                        }
                    }
                }
            },
        },
    }
}


/// The session is absent or in range.
pub open spec fn session_ok(state: Option<BlockBreaker>) -> bool {
    state matches Some(b) ==> b.wf()
}

/// The damage overlay that a session calls for: around its block, for its phase.
pub open spec fn overlay_of(state: Option<BlockBreaker>) -> Option<(Coord, u8)> {
    match state {
        Some(s) => Some((s.block.coord, s.phase)),
        None => None,
    }
}

/// The overlay a host shows after carrying out `effect` on `overlay`.
pub open spec fn apply_effect(overlay: Option<(Coord, u8)>, effect: TickEffect) -> Option<
    (Coord, u8),
> {
    match effect {
        TickEffect::Unchanged => overlay,
        TickEffect::ShowOverlay { coord, phase } => Some((coord, phase)),
        TickEffect::ClearOverlay => None,
        TickEffect::Destroyed { .. } => None,
    }
}

/// Number of overlay face entities alive for an overlay.
pub open spec fn overlay_faces(overlay: Option<(Coord, u8)>) -> nat {
    if overlay is Some {
        6
    } else {
        0
    }
}

/// The session, the placed blocks and the shown overlay after `inputs`, one tick each.
pub open spec fn run(
    state: Option<BlockBreaker>,
    world: Map<EntityId, Block>,
    overlay: Option<(Coord, u8)>,
    inputs: Seq<TickInput>,
) -> (Option<BlockBreaker>, Map<EntityId, Block>, Option<(Coord, u8)>)
    decreases inputs.len(),
{
    if inputs.len() == 0 {
        (state, world, overlay)
    } else {
        let prev = run(state, world, overlay, inputs.drop_last());
        let next = step(prev.0, prev.1, inputs.last());
        (next.0, next.1, apply_effect(prev.2, next.2))
    }
}

/// What one tick keeps true: the session stays in range and bound to the
/// block sighted this tick with the input held, the overlay shown follows the
/// session, and at most one block, the one named by the effect, leaves the world.
pub proof fn lemma_step_invariant(
    state: Option<BlockBreaker>,
    world: Map<EntityId, Block>,
    overlay: Option<(Coord, u8)>,
    input: TickInput,
)
    requires
        session_ok(state),
        overlay == overlay_of(state),
    ensures
        ({
            let (next, w, effect) = step(state, world, input);
            &&& session_ok(next)
            &&& apply_effect(overlay, effect) == overlay_of(next)
            &&& next matches Some(b) ==> input.mine_held && input.sighted == Some(b.block_id)
                && w.contains_key(b.block_id)
            &&& w == world || (effect matches TickEffect::Destroyed { entity, .. } && w
                == world.remove(entity))
        }),
{
}

/// At most one breaking session exists after any sequence of ticks: the state
/// is one optional session, in range, on the block sighted with the input
/// held in the last tick; the overlay shown is six faces exactly while that
/// session exists, for its block and phase, and none otherwise.
pub proof fn lemma_single_session(world: Map<EntityId, Block>, inputs: Seq<TickInput>)
    ensures
        forall|k: int|
            0 <= k <= inputs.len() ==> {
                let r = #[trigger] run(None, world, None, inputs.take(k));
                &&& session_ok(r.0)
                &&& r.2 == overlay_of(r.0)
                &&& overlay_faces(r.2) == (if r.0 is Some {
                    6nat
                } else {
                    0nat
                })
                &&& r.0 matches Some(b) ==> inputs[k - 1].mine_held && inputs[k - 1].sighted
                    == Some(b.block_id) && r.1.contains_key(b.block_id)
            },
{
    assert forall|k: int| 0 <= k <= inputs.len() implies {
        let r = #[trigger] run(None, world, None, inputs.take(k));
        &&& session_ok(r.0)
        &&& r.2 == overlay_of(r.0)
        &&& overlay_faces(r.2) == (if r.0 is Some {
            6nat
        } else {
            0nat
        })
        &&& r.0 matches Some(b) ==> inputs[k - 1].mine_held && inputs[k - 1].sighted == Some(
            b.block_id,
        ) && r.1.contains_key(b.block_id)
    } by {
        lemma_run_invariant(world, inputs.take(k));
        if k > 0 {
            assert(inputs.take(k).last() == inputs[k - 1]);
        }
    }
}

proof fn lemma_run_invariant(world: Map<EntityId, Block>, inputs: Seq<TickInput>)
    ensures
        ({
            let r = run(None, world, None, inputs);
            &&& session_ok(r.0)
            &&& r.2 == overlay_of(r.0)
            &&& r.0 matches Some(b) ==> inputs.len() > 0 && inputs.last().mine_held
                && inputs.last().sighted == Some(b.block_id) && r.1.contains_key(b.block_id)
        }),
    decreases inputs.len(),
{
    if inputs.len() > 0 {
        lemma_run_invariant(world, inputs.drop_last());
        let prev = run(None, world, None, inputs.drop_last());
        lemma_step_invariant(prev.0, prev.1, prev.2, inputs.last());
    }
}

/// While the target stays the same the phase never goes down, and a session
/// whose target is new (none before, or another block) starts at phase 0 with
/// no held time.
pub proof fn lemma_phase_progress(
    state: Option<BlockBreaker>,
    world: Map<EntityId, Block>,
    input: TickInput,
)
    requires
        session_ok(state),
    ensures
        ({
            let next = step(state, world, input).0;
            &&& state is Some && next is Some && state->0.block_id == next->0.block_id
                ==> next->0.phase >= state->0.phase
            &&& next is Some && !(state is Some && state->0.block_id == next->0.block_id)
                ==> next->0.phase == 0 && next->0.elapsed_time == 0
        }),
{
}

/// Releasing the mine input ends any session, keeps every block as it was,
/// and leaves no overlay face.
pub proof fn lemma_release_keeps_block(
    state: Option<BlockBreaker>,
    world: Map<EntityId, Block>,
    input: TickInput,
)
    requires
        session_ok(state),
        !input.mine_held,
    ensures
        ({
            let (next, w, effect) = step(state, world, input);
            &&& next is None
            &&& w == world
            &&& overlay_faces(apply_effect(overlay_of(state), effect)) == 0
        }),
{
}


/// Held time to break a block: `BREAK_PHASES` phases of `PHASE_DURATION_US`
/// each, 3.375 s.
pub open spec fn break_time() -> nat {
    (BREAK_PHASES as nat) * (PHASE_DURATION_US as nat)
}

/// Total length of a sequence of frames, in microseconds.
pub open spec fn held_time(ds: Seq<u64>) -> nat
    decreases ds.len(),
{
    if ds.len() == 0 {
        0
    } else {
        held_time(ds.drop_last()) + ds.last() as nat
    }
}

/// Ticks that hold the mine input on entity `id`, one per frame length of `ds`.
pub open spec fn hold_on(id: EntityId, ds: Seq<u64>) -> Seq<TickInput> {
    Seq::new(ds.len(), |k: int| TickInput { mine_held: true, sighted: Some(id), delta_us: ds[k] })
}

proof fn lemma_carry(t: int, d: int)
    requires
        t >= 0,
        d >= 0,
    ensures
        t / (PHASE_DURATION_US as int) + (t % (PHASE_DURATION_US as int) + d) / (
        PHASE_DURATION_US as int) == (t + d) / (PHASE_DURATION_US as int),
        (t % (PHASE_DURATION_US as int) + d) % (PHASE_DURATION_US as int) == (t + d) % (
        PHASE_DURATION_US as int),
{
    let p = PHASE_DURATION_US as int;
    lemma_fundamental_div_mod(t, p);
    lemma_fundamental_div_mod(t % p + d, p);
    let q = t / p + (t % p + d) / p;
    let r = (t % p + d) % p;
    assert(t + d == q * p + r) by (nonlinear_arith)
        requires
            t == p * (t / p) + t % p,
            t % p + d == p * ((t % p + d) / p) + r,
            q == t / p + (t % p + d) / p,
    ;
    lemma_fundamental_div_mod_converse(t + d, p, q, r);
}

/// Breaking a block takes 3.375 s of held input however that time is split
/// into frames. Starting a fresh session on a placed block and holding the
/// mine input on it for frames `ds`: while their total is under 3.375 s the
/// block stays and the session stands at one phase per full 0.375 s, with the
/// rest as held time; from 3.375 s on the block is gone and no session remains.
pub proof fn lemma_break_time(world: Map<EntityId, Block>, id: EntityId, ds: Seq<u64>)
    requires
        world.contains_key(id),
    ensures
        ({
            let start = Some(fresh_session(world[id], id));
            let r = run(start, world, overlay_of(start), hold_on(id, ds));
            let t = held_time(ds);
            &&& t < break_time() ==> r.1 == world && r.0 == Some(
                BlockBreaker {
                    block: world[id],
                    block_id: id,
                    phase: (t / (PHASE_DURATION_US as nat)) as u8,
                    elapsed_time: (t % (PHASE_DURATION_US as nat)) as u64,
                },
            )
            &&& t >= break_time() ==> r.1 == world.remove(id) && r.0 is None
        }),
    decreases ds.len(),
{
    if ds.len() > 0 {
        let start = Some(fresh_session(world[id], id));
        let prev = ds.drop_last();
        assert(hold_on(id, ds).drop_last() =~= hold_on(id, prev));
        lemma_break_time(world, id, prev);
        let t = held_time(prev);
        let d = ds.last();
        assert(hold_on(id, ds).last() == TickInput {
            mine_held: true,
            sighted: Some(id),
            delta_us: d,
        });
        if t < break_time() {
            lemma_carry(t as int, d as int);
        } else {
            assert(!world.remove(id).contains_key(id));
        }
    }
}

} // verus!
