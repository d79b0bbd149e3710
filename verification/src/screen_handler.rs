//! What a screen shows: its slots, and the slots that are told of changes.
use vstd::prelude::*;

verus! {

/// The kind of window in which a screen is shown: the crafting window, or another one by number.
#[derive(Clone, Copy, Debug, PartialEq, Eq, Structural)]
pub enum WindowType {
    Crafting,
    Other(i32),
}

/// What a slot of a screen stands for.
#[derive(Clone, Copy, Debug, PartialEq, Eq, Structural)]
pub enum SlotKind {
    /// The result of the workstation with the given number.
    Result(usize),
    /// A cell of the input grid of the workstation with the given number.
    Input { workstation: usize, cell: usize },
    /// A slot of the player's inventory.
    Player(usize),
}

/// The slots of a player's inventory, in the order in which a screen shows them.
#[derive(Debug)]
pub struct PlayerInventory {
    pub screen_slots: Vec<usize>,
}

impl PlayerInventory {
    /// The slots as a screen shows them.
    pub open spec fn shown(&self) -> Seq<SlotKind> {
        self.screen_slots@.map_values(|slot: usize| SlotKind::Player(slot))
    }
}

/// The state that all screens have.
#[derive(Debug)]
pub struct ScreenHandlerBehaviour {
    pub sync_id: u8,
    pub window_type: Option<WindowType>,
    pub slots: Vec<SlotKind>,
    /// The places of the slots that are told of changes.
    pub listeners: Vec<usize>,
}

impl ScreenHandlerBehaviour {
    /// A screen without slots.
    pub fn new(sync_id: u8, window_type: Option<WindowType>) -> (behaviour: ScreenHandlerBehaviour)
        ensures
            behaviour.sync_id == sync_id,
            behaviour.window_type == window_type,
            behaviour.slots@ == Seq::<SlotKind>::empty(),
            behaviour.listeners@ == Seq::<usize>::empty(),
    {
        ScreenHandlerBehaviour { sync_id, window_type, slots: Vec::new(), listeners: Vec::new() }
    }

    /// `after` is `self` with more slots and listeners.
    pub open spec fn extended(
        &self,
        after: &ScreenHandlerBehaviour,
        slots: Seq<SlotKind>,
        listeners: Seq<usize>,
    ) -> bool {
        &&& after.sync_id == self.sync_id
        &&& after.window_type == self.window_type
        &&& after.slots@ =~= self.slots@ + slots
        &&& after.listeners@ =~= self.listeners@ + listeners
    }

    pub fn add_slot(&mut self, slot: SlotKind)
        ensures
            old(self).extended(final(self), seq![slot], seq![]),
    {
        self.slots.push(slot);
    }

    pub fn add_listener(&mut self, slot: usize)
        ensures
            old(self).extended(final(self), seq![], seq![slot]),
    {
        self.listeners.push(slot);
    }
}

/// A screen.
pub trait ScreenHandler: Sized {
    spec fn behaviour(&self) -> ScreenHandlerBehaviour;

    /// The screen with another behaviour.
    spec fn with_behaviour(&self, behaviour: ScreenHandlerBehaviour) -> Self;

    fn get_behaviour(&self) -> (behaviour: &ScreenHandlerBehaviour)
        ensures
            *behaviour == self.behaviour(),
    ;

    fn get_behaviour_mut(&mut self) -> (behaviour: &mut ScreenHandlerBehaviour)
        ensures
            *behaviour == old(self).behaviour(),
            *final(self) == old(self).with_behaviour(*final(behaviour)),
            final(self).behaviour() == *final(behaviour),
    ;

    /// Adds the slots of the player's inventory.
    fn add_player_slots(&mut self, player_inventory: &PlayerInventory)
        ensures
            *final(self) == old(self).with_behaviour(final(self).behaviour()),
            old(self).behaviour().extended(
                &final(self).behaviour(),
                player_inventory.shown(),
                seq![],
            ),
    {
        let behaviour = self.get_behaviour_mut();
        let mut i: usize = 0;
        while i < player_inventory.screen_slots.len()
            invariant
                i <= player_inventory.screen_slots@.len(),
                old(self).behaviour().extended(
                    behaviour,
                    player_inventory.shown().take(i as int),
                    seq![],
                ),
            decreases player_inventory.screen_slots@.len() - i,
        {
            behaviour.add_slot(SlotKind::Player(player_inventory.screen_slots[i]));
            assert(player_inventory.shown().take(i + 1) =~= player_inventory.shown().take(
                i as int,
            ).push(player_inventory.shown()[i as int]));
            i += 1;
        }
        assert(player_inventory.shown().take(i as int) =~= player_inventory.shown());
    }
}

} // verus!
