//! The screen of a crafting table.
use crate::inventory::WorkstationInventory;
use crate::item::ItemStack;
use crate::recipes::RecipeBook;
use crate::result_slot::ResultSlot;
use crate::screen_handler::{PlayerInventory, ScreenHandler, ScreenHandlerBehaviour, WindowType};
use crate::workstation_screen_handler::{all_placed, recipe_slots, CraftingScreenHandler};
use vstd::prelude::*;

verus! {

/// The screen of a crafting table, a workstation with an input grid of three by three cells.
pub struct CraftingTableScreenHandler {
    behaviour: ScreenHandlerBehaviour,
    book: RecipeBook,
    result_slots: Vec<ResultSlot>,
}

impl ScreenHandler for CraftingTableScreenHandler {
    closed spec fn behaviour(&self) -> ScreenHandlerBehaviour {
        self.behaviour
    }

    closed spec fn with_behaviour(&self, behaviour: ScreenHandlerBehaviour) -> Self {
        CraftingTableScreenHandler { behaviour, ..*self }
    }

    fn get_behaviour(&self) -> &ScreenHandlerBehaviour {
        &self.behaviour
    }

    fn get_behaviour_mut(&mut self) -> &mut ScreenHandlerBehaviour {
        &mut self.behaviour
    }
}

impl CraftingScreenHandler<WorkstationInventory> for CraftingTableScreenHandler {
    closed spec fn book(&self) -> RecipeBook {
        self.book
    }

    closed spec fn result_slots(&self) -> Seq<ResultSlot> {
        self.result_slots@
    }

    proof fn behaviour_is_apart(&self, behaviour: ScreenHandlerBehaviour) {
    }

    fn get_book(&self) -> RecipeBook {
        self.book
    }

    fn get_result_slots(&self) -> &Vec<ResultSlot> {
        &self.result_slots
    }

    fn get_result_slots_mut(&mut self) -> &mut Vec<ResultSlot> {
        &mut self.result_slots
    }
}

impl CraftingTableScreenHandler {
    /// The screen of a crafting table with an empty input grid.
    pub fn new(
        sync_id: u8,
        player_inventory: &PlayerInventory,
        book: RecipeBook,
    ) -> (handler: CraftingTableScreenHandler)
        ensures
            handler.behaviour().sync_id == sync_id,
            handler.behaviour().window_type == Some(WindowType::Crafting),
            handler.behaviour().slots@ == recipe_slots(0, 3, 3) + player_inventory.shown(),
            handler.behaviour().listeners@ == seq![0usize],
            handler.book() == book,
            handler.result_slots().len() == 1,
            handler.result_slots()[0].wf(),
            handler.result_slots()[0].inventory@.width == 3,
            handler.result_slots()[0].inventory@.height == 3,
            forall|i: int|
                0 <= i < 9 ==> #[trigger] handler.result_slots()[0].inventory@.stacks[i]
                    == ItemStack::empty(),
            handler.result_slots()[0].id == 0,
            handler.result_slots()[0].result == ItemStack::empty(),
            handler.result_slots()[0].book() == book,
            handler.result_slots()[0].cached() is None,
            !handler.result_slots()[0].inventory.is_dirty(),
            all_placed(handler.behaviour().slots@, handler.result_slots()),
    {
        let crafting_inventory = WorkstationInventory::new(3, 3);
        let mut handler = CraftingTableScreenHandler {
            behaviour: ScreenHandlerBehaviour::new(sync_id, Some(WindowType::Crafting)),
            book,
            result_slots: Vec::new(),
        };
        handler.add_recipe_slots(crafting_inventory);
        handler.add_player_slots(player_inventory);
        handler
    }
}

} // verus!
