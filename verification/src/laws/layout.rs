//! Laws on the slots of a screen.
use crate::quick_move::{END_PLAYER, FIRST_INPUT, FIRST_PLAYER, RESULT_SLOT};
use crate::result_slot::ResultSlot;
use crate::screen_handler::{PlayerInventory, ScreenHandlerBehaviour, SlotKind};
use crate::workstation_screen_handler::{grid_under, input_slot, recipe_slots};
use vstd::arithmetic::div_mod::{lemma_fundamental_div_mod, lemma_fundamental_div_mod_converse};
use vstd::prelude::*;

verus! {

/// The slots of a square workstation are its result and then one for each cell of its input grid,
/// in order.
pub proof fn law_square_inputs_in_order(workstation: usize, side: int, k: int)
    requires
        0 < side <= u8::MAX,
        0 <= k < side * side,
    ensures
        recipe_slots(workstation, side, side).len() == side * side + 1,
        recipe_slots(workstation, side, side)[0] == SlotKind::Result(workstation),
        recipe_slots(workstation, side, side)[k + 1] == (SlotKind::Input {
            workstation,
            cell: k as usize,
        }),
{
    lemma_fundamental_div_mod(k, side);
    assert(side * (k / side) == (k / side) * side) by (nonlinear_arith);
    assert(input_slot(workstation, side, side, k) == (SlotKind::Input {
        workstation,
        cell: k as usize,
    }));
}

/// A workstation has one slot more than its input grid has cells: first the result, and then, in as
/// many groups as the grid has columns, as many slots as it has rows, where slot `j` of group `i`
/// stands for the cell `j + i * width`.
pub proof fn law_recipe_slots(workstation: usize, width: int, height: int, i: int, j: int)
    requires
        0 <= i < width <= u8::MAX,
        0 <= j < height <= u8::MAX,
    ensures
        recipe_slots(workstation, width, height).len() == 1 + width * height,
        recipe_slots(workstation, width, height)[0] == SlotKind::Result(workstation),
        1 + i * height + j < recipe_slots(workstation, width, height).len(),
        recipe_slots(workstation, width, height)[1 + i * height + j] == (SlotKind::Input {
            workstation,
            cell: (j + i * width) as usize,
        }),
{
    let k = i * height + j;
    lemma_fundamental_div_mod_converse(k, height, i, j);
    assert(0 <= k < width * height) by (nonlinear_arith)
        requires
            k == i * height + j,
            0 <= i < width,
            0 <= j < height,
    ;
    assert(recipe_slots(workstation, width, height)[1 + k] == input_slot(
        workstation,
        width,
        height,
        k,
    ));
}

/// A screen shows the slots of a player one for one, in the order in which the player gives them.
pub proof fn law_player_slots(player: &PlayerInventory, k: int)
    requires
        0 <= k < player.screen_slots@.len(),
    ensures
        player.shown().len() == player.screen_slots@.len(),
        player.shown()[k] == SlotKind::Player(player.screen_slots@[k]),
{
}

/// A screen that is extended keeps its slots and listeners in their places. What is new comes after
/// them, and there is nothing else.
pub proof fn law_extending_keeps_what_is_there(
    before: &ScreenHandlerBehaviour,
    after: &ScreenHandlerBehaviour,
    slots: Seq<SlotKind>,
    listeners: Seq<usize>,
    k: int,
)
    requires
        before.extended(after, slots, listeners),
        k >= 0,
    ensures
        after.sync_id == before.sync_id,
        after.window_type == before.window_type,
        after.slots@.len() == before.slots@.len() + slots.len(),
        k < before.slots@.len() ==> after.slots@[k] == before.slots@[k],
        k < slots.len() ==> after.slots@[before.slots@.len() + k] == slots[k],
        after.listeners@.len() == before.listeners@.len() + listeners.len(),
        k < before.listeners@.len() ==> after.listeners@[k] == before.listeners@[k],
        k < listeners.len() ==> after.listeners@[before.listeners@.len() + k] == listeners[k],
{
}

/// The slots of a workstation stand over its own grid, and those of the player over none.
pub proof fn law_slots_stand_over_their_grid(
    result_slots: Seq<ResultSlot>,
    workstation: usize,
    slot: usize,
)
    requires
        workstation < result_slots.len(),
    ensures
        grid_under(SlotKind::Result(workstation), result_slots) == Some(
            result_slots[workstation as int].inventory,
        ),
        grid_under(SlotKind::Input { workstation, cell: slot }, result_slots) == Some(
            result_slots[workstation as int].inventory,
        ),
        grid_under(SlotKind::Player(slot), result_slots) is None,
{
}

/// On the screen of a crafting table that shows thirty-six slots of the player, there are just the
/// slots that quick moves go by: first the result, then the nine cells of the input grid, then the
/// slots of the player.
pub proof fn law_crafting_table_layout(player: Seq<SlotKind>, slot: int)
    requires
        player.len() == 36,
        0 <= slot < (recipe_slots(0, 3, 3) + player).len(),
    ensures
        (recipe_slots(0, 3, 3) + player).len() == END_PLAYER,
        slot == RESULT_SLOT ==> (recipe_slots(0, 3, 3) + player)[slot] == SlotKind::Result(0),
        FIRST_INPUT <= slot < FIRST_PLAYER ==> (recipe_slots(0, 3, 3) + player)[slot]
            == (SlotKind::Input { workstation: 0, cell: (slot - FIRST_INPUT) as usize }),
        FIRST_PLAYER <= slot ==> (recipe_slots(0, 3, 3) + player)[slot] == player[slot
            - FIRST_PLAYER],
{
    assert(recipe_slots(0, 3, 3).len() == 10);
    if FIRST_INPUT <= slot < FIRST_PLAYER {
        law_square_inputs_in_order(0, 3, slot - 1);
    }
}

} // verus!
