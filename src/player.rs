//! The agent's view target and its ground contacts.

use crate::block::EntityId;
use vstd::prelude::*;

verus! {

broadcast use vstd::std_specs::hash::group_hash_axioms;

/// Why a tick of target acquisition did nothing.
#[derive(Clone, Copy, Debug, PartialEq, Eq, Structural)]
pub enum SightError {
    /// The agent or its viewpoint could not be found this tick.
    MissingAgent,
}

/// The marker of the single entity that the agent's view ray hits, if any.
#[derive(Clone, Copy, Debug, PartialEq, Eq, Structural)]
pub struct SeenObject {
    pub entity: Option<EntityId>,
}

impl SeenObject {
    /// No entity is sighted.
    pub fn new() -> (r: SeenObject)
        ensures
            r.entity is None,
    {
        SeenObject { entity: None }
    }
}

/// One tick of target acquisition. With the agent and its viewpoint resolved,
/// the previous marker is cleared and the entity that the view ray hit, if
/// any, becomes the sighted one. Otherwise the tick does nothing and reports
/// `MissingAgent`.
pub fn player_eye(seen: &mut SeenObject, agent_resolved: bool, hit: Option<EntityId>) -> (r: Result<
    (),
    SightError,
>)
    ensures
        agent_resolved ==> r is Ok && final(seen).entity == hit,
        !agent_resolved ==> r == Err::<(), SightError>(SightError::MissingAgent) && *final(seen)
            == *old(seen),
{
    if !agent_resolved {
        return Err(SightError::MissingAgent);
    }
    seen.entity = None;
    if let Some(entity) = hit {
        seen.entity = Some(entity);
    }
    Ok(())
}

/// A change of contact between the agent's feet and a collider.
#[derive(Clone, Copy, Debug, PartialEq, Eq, Structural)]
pub enum CollisionEvent {
    /// Contact with the collider began.
    Started(u32),
    /// Contact with the collider ended.
    Stopped(u32),
}

/// The colliders under the agent's feet, and whether it stands on any.
pub struct PlayerStatus {
    grounds: std::collections::HashMap<u32, bool>,
    on_ground: bool,
}

impl View for PlayerStatus {
    type V = (Map<u32, bool>, bool);

    closed spec fn view(&self) -> (Map<u32, bool>, bool) {
        (self.grounds@, self.on_ground)
    }
}

/// The contacts after `events`, in order, starting from `m`.
pub open spec fn contacts_after(m: Map<u32, bool>, events: Seq<CollisionEvent>) -> Map<u32, bool>
    decreases events.len(),
{
    if events.len() == 0 {
        m
    } else {
        let prev = contacts_after(m, events.drop_last());
        match events.last() {
            CollisionEvent::Started(g) => prev.insert(g, true),
            CollisionEvent::Stopped(g) => prev.remove(g),
        }
    }
}

impl PlayerStatus {
    /// No contact; not on the ground.
    pub fn new() -> (r: PlayerStatus)
        ensures
            r@ == (Map::<u32, bool>::empty(), false),
    {
        PlayerStatus { grounds: std::collections::HashMap::new(), on_ground: false }
    }

    /// The agent stood on some collider after the last batch of events.
    pub fn on_ground(&self) -> (r: bool)
        ensures
            r == self@.1,
    {
        self.on_ground
    }

    /// The agent's feet touch collider `ground`.
    pub fn touches(&self, ground: u32) -> (r: bool)
        ensures
            r == self@.0.contains_key(ground),
    {
        self.grounds.contains_key(&ground)
    }

    fn ground_remove(&mut self, index: u32)
        ensures
            final(self)@ == (old(self)@.0.remove(index), old(self)@.1),
    {
        let _ = self.grounds.remove(&index);
    }
}

/// Applies a tick's contact events in order: a start adds the collider, a stop
/// removes it. The agent is then on the ground exactly when some contact remains.
pub fn ground_event(status: &mut PlayerStatus, events: &Vec<CollisionEvent>)
    ensures
        final(status)@.0 == contacts_after(old(status)@.0, events@),
        final(status)@.1 == !final(status)@.0.is_empty(),
{
    let mut i: usize = 0;
    while i < events.len()
        invariant
            i <= events@.len(),
            status@.0 == contacts_after(old(status)@.0, events@.take(i as int)),
        decreases events@.len() - i,
    {
        assert(events@.take(i + 1).drop_last() =~= events@.take(i as int));
        match events[i] {
            CollisionEvent::Started(g) => {
                let _ = status.grounds.insert(g, true);
            },
            CollisionEvent::Stopped(g) => {
                status.ground_remove(g);
            },
        }
        i += 1;
    }
    assert(events@.take(events@.len() as int) =~= events@);
    status.on_ground = !status.grounds.is_empty();
}

} // verus!
