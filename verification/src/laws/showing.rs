//! Laws on what a result slot shows.
use crate::inventory::Grid;
use crate::item::ItemStack;
use crate::laws::patterns::{law_sound_book_is_searchable, sound_recipe};
use crate::recipes::RecipeResultStruct;
use crate::result_slot::{output_of, smallest_count, take_from_all, ResultSlot};
use vstd::prelude::*;
use vstd::std_specs::convert::FromSpec;

verus! {

/// A slot that has been shown anew shows the item and the count that the recipe found states as its
/// result, whatever they are, and remembers that recipe. Without a recipe it shows the empty stack
/// and remembers what it did before. Nothing else of it changes.
pub proof fn law_refill_shows_the_result(slot: &ResultSlot, after: &ResultSlot)
    requires
        slot.refilled(after),
    ensures
        slot.matched() matches Some((result, i)) ==> {
            &&& after.result.item@ == result.id@
            &&& after.result.item_count == result.count
            &&& after.cached() == Some(i)
        },
        slot.matched() is None ==> {
            &&& after.result.item@ == "minecraft:air"@
            &&& after.result.item_count == 0
            &&& after.cached() == slot.cached()
        },
        after.inventory == slot.inventory,
        after.id == slot.id,
        after.book() == slot.book(),
{
}

/// No two results look alike in a slot unless they are of the same item and of the same count.
pub proof fn law_results_are_told_apart(
    one: RecipeResultStruct,
    i: usize,
    other: RecipeResultStruct,
    j: usize,
)
    ensures
        output_of(Some((one, i))) == output_of(Some((other, j))) ==> one.id@ == other.id@
            && one.count == other.count,
        one.id == other.id && one.count == other.count ==> output_of(Some((one, i))) == output_of(
            Some((other, j)),
        ),
        output_of(Some((one, i))).item@ == one.id@,
        output_of(Some((one, i))).item_count == one.count,
{
}

/// The stack of a result is of its item and of its count.
pub proof fn law_stack_of_a_result(result: &RecipeResultStruct)
    ensures
        ItemStack::from_spec(result).item@ == result.id@,
        ItemStack::from_spec(result).item_count == result.count,
{
}

/// A slot with a book of sound recipes can always be shown anew.
pub proof fn law_slot_with_a_sound_book_can_match(slot: &ResultSlot)
    requires
        slot.wf(),
        forall|i: int|
            0 <= i < slot.book().recipes@.len() ==> sound_recipe(
                #[trigger] slot.book().recipes@[i],
            ),
    ensures
        slot.can_match(),
{
    law_sound_book_is_searchable(slot.book(), slot.inventory@, slot.cached());
}

/// Using a grid takes one item from each cell that counts some, unless its item is air, and leaves
/// everything else as it is.
pub proof fn law_use_takes_one_item(grid: Grid, i: int)
    requires
        0 <= i < grid.stacks.len(),
    ensures
        ({
            let after = take_from_all(grid);
            let before = grid.stacks[i];
            &&& after.width == grid.width
            &&& after.height == grid.height
            &&& after.stacks.len() == grid.stacks.len()
            &&& after.stacks[i].item == before.item
            &&& before.item_count > 0 && before.item@ != "minecraft:air"@
                ==> after.stacks[i].item_count == before.item_count - 1
            &&& before.item_count == 0 || before.item@ == "minecraft:air"@
                ==> after.stacks[i].item_count == before.item_count
        }),
{
}

/// The number of uses of a grid is the largest number that no count of a stack lies below, and two
/// hundred and fifty-five at most.
pub proof fn law_largest_number_of_uses(stacks: Seq<ItemStack>, bound: u8)
    ensures
        bound <= smallest_count(stacks, stacks.len() as int) <==> forall|i: int|
            0 <= i < stacks.len() && (#[trigger] stacks[i]).item_count > 0 && stacks[i].item@
                != "minecraft:air"@ ==> bound <= stacks[i].item_count,
{
    lemma_bound_of_counts(stacks, bound, stacks.len() as int);
}

proof fn lemma_bound_of_counts(stacks: Seq<ItemStack>, bound: u8, n: int)
    requires
        0 <= n <= stacks.len(),
    ensures
        bound <= smallest_count(stacks, n) <==> forall|i: int|
            0 <= i < n && (#[trigger] stacks[i]).item_count > 0 && stacks[i].item@
                != "minecraft:air"@ ==> bound <= stacks[i].item_count,
    decreases n,
{
    if n > 0 {
        lemma_bound_of_counts(stacks, bound, n - 1);
    }
}

} // verus!
