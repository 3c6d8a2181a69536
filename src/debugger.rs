//! The on-screen position readout, shown and hidden by a toggle key.

use crate::block::EntityId;
use vstd::prelude::*;

verus! {

/// What the host does with the readout after a tick.
#[derive(Clone, Copy, Debug, PartialEq, Eq, Structural)]
pub enum DebugAction {
    /// The readout is hidden; nothing to do.
    Hidden,
    /// Spawn the readout text, `attach` its entity, and fill it in.
    Show,
    /// Refresh the readout text with the agent's position.
    Refresh,
    /// Despawn the readout text entity.
    Hide(EntityId),
}

/// Whether the readout is shown, and its text entity once spawned.
pub struct Debugger {
    enable: bool,
    entity: Option<EntityId>,
}

impl View for Debugger {
    type V = (bool, Option<EntityId>);

    closed spec fn view(&self) -> (bool, Option<EntityId>) {
        (self.enable, self.entity)
    }
}

impl Debugger {
    /// Hidden, with no text entity.
    pub fn new() -> (r: Debugger)
        ensures
            r@ == (false, None::<EntityId>),
    {
        Debugger { enable: false, entity: None }
    }

    /// The readout is shown.
    pub fn is_enabled(&self) -> (r: bool)
        ensures
            r == self@.0,
    {
        self.enable
    }

    /// Records the entity of the readout text that the host spawned.
    pub fn attach(&mut self, entity: EntityId)
        ensures
            final(self)@ == (old(self)@.0, Some(entity)),
    {
        self.entity = Some(entity);
    }
}

/// One tick of the readout. A press of the toggle key hides a shown readout
/// (despawning its text, if one was attached) or shows a hidden one; without
/// a press a shown readout is refreshed.
pub fn update_debugger(debugger: &mut Debugger, toggle_pressed: bool) -> (r: DebugAction)
    ensures
        toggle_pressed && old(debugger)@.0 ==> final(debugger)@ == (false, None::<EntityId>) && r
            == match old(debugger)@.1 {
            Some(e) => DebugAction::Hide(e),
            None => DebugAction::Hidden,
        },
        toggle_pressed && !old(debugger)@.0 ==> final(debugger)@ == (true, old(debugger)@.1) && r
            == DebugAction::Show,
        !toggle_pressed ==> final(debugger)@ == old(debugger)@ && r == (if old(debugger)@.0 {
            DebugAction::Refresh
        } else {
            DebugAction::Hidden
        }),
{
    if toggle_pressed {
        if debugger.enable {
            debugger.enable = false;
            let old_entity = debugger.entity;
            debugger.entity = None;
            match old_entity {
                Some(e) => DebugAction::Hide(e),
                None => DebugAction::Hidden,
            }
        } else {
            debugger.enable = true;
            DebugAction::Show
        }
    } else if debugger.enable {
        DebugAction::Refresh
    } else {
        DebugAction::Hidden
    }
}

} // verus!
