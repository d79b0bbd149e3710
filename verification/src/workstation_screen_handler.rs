//! The screen of a workstation.
use crate::inventory::{RecipeInputInventory, WorkstationInventory};
use crate::item::ItemStack;
use crate::quick_move::QuickMove;
use crate::recipes::RecipeBook;
use crate::result_slot::ResultSlot;
use crate::screen_handler::{
    PlayerInventory, ScreenHandler, ScreenHandlerBehaviour, SlotKind, WindowType,
};
use vstd::arithmetic::div_mod::lemma_fundamental_div_mod_converse;
use vstd::prelude::*;

verus! {

/// Slot `k` of the input grid of a workstation. The slots come in `width` groups of `height` each:
/// slot `j` of group `i`, with `j == k % height` and `i == k / height`, stands for the cell with
/// the index `j + i * width`. In a square grid, whose cells are numbered row after row, that is
/// column `j` of row `i`.
pub open spec fn input_slot(workstation: usize, width: int, height: int, k: int) -> SlotKind {
    SlotKind::Input { workstation, cell: (k % height + (k / height) * width) as usize }
}

/// The slots of a workstation: the result, then those of the input grid.
pub open spec fn recipe_slots(workstation: usize, width: int, height: int) -> Seq<SlotKind> {
    seq![SlotKind::Result(workstation)] + Seq::new(
        (width * height) as nat,
        |k: int| input_slot(workstation, width, height, k),
    )
}

/// The input grid that a slot stands over, on a screen whose workstations have the given result
/// slots. The slots of the player stand over none.
pub open spec fn grid_under(slot: SlotKind, result_slots: Seq<ResultSlot>) -> Option<
    WorkstationInventory,
> {
    match slot {
        SlotKind::Result(workstation) | SlotKind::Input { workstation, .. } => if workstation
            < result_slots.len() {
            Some(result_slots[workstation as int].inventory)
        } else {
            None
        },
        SlotKind::Player(_) => None,
    }
}

/// Every slot stands over a grid, but for those of the player.
pub open spec fn all_placed(slots: Seq<SlotKind>, result_slots: Seq<ResultSlot>) -> bool {
    forall|k: int|
        0 <= k < slots.len() ==> (#[trigger] slots[k]) is Player || grid_under(
            slots[k],
            result_slots,
        ) is Some
}

/// Adds the slots of a workstation to a screen. The result slot is told of changes.
fn lay_out_recipe_slots<I: RecipeInputInventory>(
    behaviour: &mut ScreenHandlerBehaviour,
    workstation: usize,
    inventory: &I,
)
    ensures
        old(behaviour).extended(
            final(behaviour),
            recipe_slots(workstation, inventory.columns(), inventory.rows()),
            seq![old(behaviour).slots@.len() as usize],
        ),
{
    let width: usize = inventory.get_width();
    let height: usize = inventory.get_height();
    let ghost all = recipe_slots(workstation, width as int, height as int);
    let result_slot: usize = behaviour.slots.len();
    behaviour.add_slot(SlotKind::Result(workstation));
    assert(width as int * height as int >= 0) by (nonlinear_arith);
    assert(all.take(1) =~= seq![SlotKind::Result(workstation)]);
    let mut i: usize = 0;
    while i < width
        invariant
            i <= width <= 255,
            height <= 255,
            all == recipe_slots(workstation, width as int, height as int),
            0 <= 1 + i * height <= all.len(),
            old(behaviour).extended(behaviour, all.take(1 + i * height), seq![]),
        decreases width - i,
    {
        let mut j: usize = 0;
        assert(i * height + height == (i + 1) * height) by (nonlinear_arith);
        assert((i + 1) * height <= width * height) by (nonlinear_arith)
            requires
                i + 1 <= width,
                height >= 0,
        ;
        assert(0 <= i * width <= 255 * 255) by (nonlinear_arith)
            requires
                0 <= i <= 255,
                0 <= width <= 255,
        ;
        while j < height
            invariant
                i < width <= 255,
                j <= height <= 255,
                all == recipe_slots(workstation, width as int, height as int),
                0 <= i * width <= 255 * 255,
                0 <= i * height,
                i * height + height <= width * height,
                old(behaviour).extended(
                    behaviour,
                    all.take(1 + i * height + j),
                    seq![],
                ),
            decreases height - j,
        {
            proof {
                let k = i * height + j;
                lemma_fundamental_div_mod_converse(k, height as int, i as int, j as int);
                assert(all[1 + k] == input_slot(
                    workstation,
                    width as int,
                    height as int,
                    k,
                ));
                assert(all.take(1 + k + 1) =~= all.take(1 + k).push(all[1 + k]));
            }
            behaviour.add_slot(SlotKind::Input { workstation, cell: j + i * width });
            j += 1;
        }
        i += 1;
    }
    assert(all.take(1 + width * height) =~= all);
    behaviour.add_listener(result_slot);
}

/// The screen of workstations, which are numbered in the order in which they were added. The first
/// is the screen's own.
pub trait CraftingScreenHandler<I: RecipeInputInventory>: ScreenHandler {
    /// The recipes that the workstations go by.
    spec fn book(&self) -> RecipeBook;

    /// For each workstation, the slot that shows what its input grid can be made into.
    spec fn result_slots(&self) -> Seq<ResultSlot>;

    /// The slots of the screen may change while the workstations stay the same.
    proof fn behaviour_is_apart(&self, behaviour: ScreenHandlerBehaviour)
        ensures
            self.with_behaviour(behaviour).book() == self.book(),
            self.with_behaviour(behaviour).result_slots() == self.result_slots(),
    ;

    fn get_book(&self) -> (book: RecipeBook)
        ensures
            book == self.book(),
    ;

    fn get_result_slots(&self) -> (slots: &Vec<ResultSlot>)
        ensures
            slots@ == self.result_slots(),
    ;

    fn get_result_slots_mut(&mut self) -> (slots: &mut Vec<ResultSlot>)
        ensures
            slots@ == old(self).result_slots(),
            final(self).result_slots() == final(slots)@,
            final(self).book() == old(self).book(),
            final(self).behaviour() == old(self).behaviour(),
    ;

    fn get_result_slot(&self, workstation: usize) -> (slot: &ResultSlot)
        requires
            workstation < self.result_slots().len(),
        ensures
            *slot == self.result_slots()[workstation as int],
    {
        &self.get_result_slots()[workstation]
    }

    fn get_result_slot_mut(&mut self, workstation: usize) -> (slot: &mut ResultSlot)
        requires
            workstation < old(self).result_slots().len(),
        ensures
            *slot == old(self).result_slots()[workstation as int],
            final(self).result_slots() == old(self).result_slots().update(
                workstation as int,
                *final(slot),
            ),
            final(self).book() == old(self).book(),
            final(self).behaviour() == old(self).behaviour(),
    {
        let slots = self.get_result_slots_mut();
        &mut slots[workstation]
    }

    /// The input grid of the screen's own workstation.
    fn crafting_inventory(&self) -> (inventory: &WorkstationInventory)
        requires
            self.result_slots().len() > 0,
        ensures
            *inventory == self.result_slots()[0].inventory,
    {
        self.get_result_slot(0).get_inventory()
    }

    /// Adds a workstation with the given input grid: a new result slot over the grid, which is told
    /// of changes, and the slots of the grid. The workstations that were there before stay as they
    /// are.
    fn add_recipe_slots(&mut self, inventory: WorkstationInventory)
        requires
            inventory.wf(),
        ensures
            final(self).book() == old(self).book(),
            final(self).result_slots().len() == old(self).result_slots().len() + 1,
            final(self).result_slots().drop_last() == old(self).result_slots(),
            final(self).result_slots().last().wf(),
            final(self).result_slots().last().inventory == inventory,
            final(self).result_slots().last().id == 0,
            final(self).result_slots().last().result == ItemStack::empty(),
            final(self).result_slots().last().book() == old(self).book(),
            final(self).result_slots().last().cached() is None,
            old(self).behaviour().extended(
                &final(self).behaviour(),
                recipe_slots(
                    old(self).result_slots().len() as usize,
                    inventory.columns(),
                    inventory.rows(),
                ),
                seq![old(self).behaviour().slots@.len() as usize],
            ),
            forall|k: int|
                old(self).behaviour().slots@.len() <= k < final(self).behaviour().slots@.len()
                    ==> grid_under(
                    #[trigger] final(self).behaviour().slots@[k],
                    final(self).result_slots(),
                ) == Some(inventory),
            forall|k: int|
                0 <= k < old(self).behaviour().slots@.len() && grid_under(
                    #[trigger] old(self).behaviour().slots@[k],
                    old(self).result_slots(),
                ) is Some ==> grid_under(
                    final(self).behaviour().slots@[k],
                    final(self).result_slots(),
                ) == grid_under(old(self).behaviour().slots@[k], old(self).result_slots()),
            all_placed(old(self).behaviour().slots@, old(self).result_slots()) ==> all_placed(
                final(self).behaviour().slots@,
                final(self).result_slots(),
            ),
    {
        let workstation: usize = self.get_result_slots().len();
        let book: RecipeBook = self.get_book();
        lay_out_recipe_slots(self.get_behaviour_mut(), workstation, &inventory);
        proof {
            old(self).behaviour_is_apart(self.behaviour());
        }
        self.get_result_slots_mut().push(ResultSlot::new(inventory, book));
    }

    /// Moves the stack of a slot to where it belongs.
    fn quick_move(&self, slot_index: i32) -> (quick_move: QuickMove)
        requires
            0 <= slot_index < self.behaviour().slots@.len(),
        ensures
            quick_move == (QuickMove::Start { slot: slot_index }),
            quick_move.wf(),
    {
        QuickMove::new(slot_index)
    }
}

/// The screen of a workstation with an input grid of any size.
pub struct WorkstationScreenHandler {
    behaviour: ScreenHandlerBehaviour,
    book: RecipeBook,
    result_slots: Vec<ResultSlot>,
}

impl ScreenHandler for WorkstationScreenHandler {
    closed spec fn behaviour(&self) -> ScreenHandlerBehaviour {
        self.behaviour
    }

    closed spec fn with_behaviour(&self, behaviour: ScreenHandlerBehaviour) -> Self {
        WorkstationScreenHandler { behaviour, ..*self }
    }

    fn get_behaviour(&self) -> &ScreenHandlerBehaviour {
        &self.behaviour
    }

    fn get_behaviour_mut(&mut self) -> &mut ScreenHandlerBehaviour {
        &mut self.behaviour
    }
}

impl CraftingScreenHandler<WorkstationInventory> for WorkstationScreenHandler {
    closed spec fn book(&self) -> RecipeBook {
        self.book
    }

    closed spec fn result_slots(&self) -> Seq<ResultSlot> {
        self.result_slots@
    }

    proof fn behaviour_is_apart(&self, behaviour: ScreenHandlerBehaviour) {
    }

    fn get_book(&self) -> RecipeBook {
        self.book
    }

    fn get_result_slots(&self) -> &Vec<ResultSlot> {
        &self.result_slots
    }

    fn get_result_slots_mut(&mut self) -> &mut Vec<ResultSlot> {
        &mut self.result_slots
    }
}

impl WorkstationScreenHandler {
    /// The screen of a workstation with an empty input grid of `width` by `height` cells.
    pub fn new(
        sync_id: u8,
        player_inventory: &PlayerInventory,
        window_type: WindowType,
        width: u8,
        height: u8,
        book: RecipeBook,
    ) -> (handler: WorkstationScreenHandler)
        ensures
            handler.behaviour().sync_id == sync_id,
            handler.behaviour().window_type == Some(window_type),
            handler.behaviour().slots@ == recipe_slots(0, width as int, height as int)
                + player_inventory.shown(),
            handler.behaviour().listeners@ == seq![0usize],
            handler.book() == book,
            handler.result_slots().len() == 1,
            handler.result_slots()[0].wf(),
            handler.result_slots()[0].inventory@.width == width,
            handler.result_slots()[0].inventory@.height == height,
            forall|i: int|
                0 <= i < width * height
                    ==> #[trigger] handler.result_slots()[0].inventory@.stacks[i]
                    == ItemStack::empty(),
            handler.result_slots()[0].id == 0,
            handler.result_slots()[0].result == ItemStack::empty(),
            handler.result_slots()[0].book() == book,
            handler.result_slots()[0].cached() is None,
            !handler.result_slots()[0].inventory.is_dirty(),
            all_placed(handler.behaviour().slots@, handler.result_slots()),
    {
        let crafting_inventory = WorkstationInventory::new(width, height);
        let mut handler = WorkstationScreenHandler {
            behaviour: ScreenHandlerBehaviour::new(sync_id, Some(window_type)),
            book,
            result_slots: Vec::new(),
        };
        handler.add_recipe_slots(crafting_inventory);
        handler.add_player_slots(player_inventory);
        handler
    }
}

} // verus!
