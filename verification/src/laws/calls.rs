//! Laws on what comes of calls, told by what goes in and what comes out.
use crate::crafting_table_screen_handler::CraftingTableScreenHandler;
use crate::inventory::WorkstationInventory;
use crate::item::ItemStack;
use crate::laws::layout::{law_player_slots, law_recipe_slots, law_square_inputs_in_order};
use crate::laws::making::{
    even_patterns, even_rows, holds_something, law_recipe_makes, law_search_finds_what_can_be_made,
    law_slot_shows_what_can_be_made, lemma_holds_something, made, made_by, something,
};
use crate::laws::moving::{run, Answers};
use crate::laws::patterns::sound_recipe;
use crate::laws::reading::law_symmetry;
use crate::laws::searching::{law_extent_counts_stacks, law_extent_is_tight, occupied_cells};
use crate::laws::showing::{
    law_largest_number_of_uses, law_slot_with_a_sound_book_can_match, law_use_takes_one_item,
};
use crate::matching::recipe_matches;
use crate::pattern::is_symmetrical_horizontally;
use crate::quick_move::{Action, QuickMove};
use crate::recipe_cache::RecipeCache;
use crate::recipes::{CraftingRecipeTypes, Ingredient, RecipeBook, RecipeResultStruct};
use crate::result_slot::{use_one, ResultSlot, SlotUpdate};
use crate::screen_handler::{PlayerInventory, ScreenHandler, SlotKind, WindowType};
use crate::search::{find_area, full_extent, search, OccupiedArea};
use crate::workstation_screen_handler::{
    recipe_slots, CraftingScreenHandler, WorkstationScreenHandler,
};
use vstd::prelude::*;

verus! {

/// A stack is said to be empty if and only if there is nothing in it.
pub proof fn law_call_is_empty(stack: ItemStack, empty: bool)
    requires
        call_ensures(ItemStack::is_empty, (stack,), empty),
    ensures
        empty <==> stack.item_count == 0 || stack.item@ == "minecraft:air"@,
{
}

/// An ingredient matches an item if and only if it names it, in whatever place of its list.
pub proof fn law_call_match_item(ingredient: &Ingredient, item: &str, matched: bool)
    requires
        call_ensures(Ingredient::match_item, (ingredient, item), matched),
    ensures
        matched <==> exists|m: int|
            0 <= m < ingredient.items@.len() && (#[trigger] ingredient.items@[m])@ == item@,
{
}

/// A pattern of single-byte characters is said to be symmetrical if and only if all its rows are as
/// long as the first, and each has the same character at the same distance from either end.
pub proof fn law_call_is_symmetrical(pattern: &'static [&'static str], symmetric: bool)
    requires
        call_ensures(is_symmetrical_horizontally, (pattern,), symmetric),
        forall|y: int|
            0 <= y < pattern@.len() ==> (#[trigger] pattern@[y]).len() == pattern@[y]@.len(),
    ensures
        symmetric <==> forall|y: int|
            0 <= y < pattern@.len() ==> {
                &&& (#[trigger] pattern@[y])@.len() == pattern@[0]@.len()
                &&& forall|x: int|
                    0 <= x < pattern@[y]@.len() ==> #[trigger] pattern@[y]@[x]
                        == pattern@[y]@[pattern@[y]@.len() - 1 - x]
            },
{
    law_symmetry(pattern@);
}

/// The area that is found takes in every stack, touches a stack on each of its four sides, and
/// counts the stacks. None is found only where there is no stack.
pub proof fn law_call_find_area(inventory: &WorkstationInventory, found: Option<OccupiedArea>)
    requires
        inventory.wf(),
        call_ensures(find_area, (inventory,), found),
    ensures
        found is Some <==> holds_something(inventory@),
        found matches Some(area) ==> {
            let grid = inventory@;
            let n = grid.stacks.len() as int;
            let last_x = area.top_x + area.input_width - 1;
            let last_y = area.top_y + area.input_height - 1;
            &&& area.count == Set::new(|i: int| 0 <= i < n && something(grid.stacks[i])).len()
            &&& forall|i: int|
                0 <= i < n && something(#[trigger] grid.stacks[i]) ==> area.top_x <= i % grid.width
                    <= last_x && area.top_y <= i / grid.width <= last_y
            &&& exists|i: int|
                0 <= i < n && something(#[trigger] grid.stacks[i]) && i % grid.width == area.top_x
            &&& exists|i: int|
                0 <= i < n && something(#[trigger] grid.stacks[i]) && i % grid.width == last_x
            &&& exists|i: int|
                0 <= i < n && something(#[trigger] grid.stacks[i]) && i / grid.width == area.top_y
            &&& exists|i: int|
                0 <= i < n && something(#[trigger] grid.stacks[i]) && i / grid.width == last_y
        },
{
    let grid = inventory@;
    let n = grid.stacks.len() as int;
    lemma_holds_something(grid);
    law_extent_counts_stacks(grid, n);
    law_extent_is_tight(grid, n);
    if let Some(area) = found {
        let e = full_extent(grid);
        assert(Set::new(|i: int| 0 <= i < n && something(grid.stacks[i])) =~= occupied_cells(
            grid,
            n,
        ));
        assert forall|i: int| 0 <= i < n && something(#[trigger] grid.stacks[i]) implies area.top_x
            <= i % grid.width <= area.top_x + area.input_width - 1 && area.top_y <= i / grid.width
            <= area.top_y + area.input_height - 1 by {
            assert(grid.occupied(i));
        }
        let left = choose|i: int|
            0 <= i < n && #[trigger] grid.occupied(i) && i % grid.width == e.top_x;
        let top = choose|i: int|
            0 <= i < n && #[trigger] grid.occupied(i) && i / grid.width == e.top_y;
        let right = choose|i: int|
            0 <= i < n && #[trigger] grid.occupied(i) && i % grid.width == e.bottom_x;
        let bottom = choose|i: int|
            0 <= i < n && #[trigger] grid.occupied(i) && i / grid.width == e.bottom_y;
        assert(something(grid.stacks[left]) && something(grid.stacks[top]) && something(
            grid.stacks[right],
        ) && something(grid.stacks[bottom]));
    }
}

/// A recipe that is held against the area found for a grid yields what it makes of the grid.
pub proof fn law_call_recipe_matches(
    recipe: &CraftingRecipeTypes,
    area: OccupiedArea,
    inventory: &WorkstationInventory,
    pot_ingredients: &'static [&'static str],
    result: Option<RecipeResultStruct>,
)
    requires
        inventory.wf(),
        *recipe matches CraftingRecipeTypes::CraftingShaped { pattern, .. } ==> even_rows(
            pattern@,
        ),
        call_ensures(find_area, (inventory,), Some(area)),
        call_ensures(
            recipe_matches,
            (
                recipe,
                area.input_height,
                area.input_width,
                area.top_x,
                area.top_y,
                area.count,
                inventory,
                pot_ingredients,
            ),
            result,
        ),
    ensures
        result == made(*recipe, pot_ingredients@, inventory@),
{
    lemma_holds_something(inventory@);
    law_recipe_makes(*recipe, pot_ingredients@, inventory@);
}

/// A search finds nothing in a grid that holds nothing. Else it finds the remembered recipe, if
/// that makes something of the grid; else the first recipe of the book that does, with what that
/// recipe makes; and it finds nothing only if no recipe of the book makes anything of the grid.
pub proof fn law_call_search(
    book: RecipeBook,
    inventory: &WorkstationInventory,
    cached: Option<usize>,
    found: Option<(RecipeResultStruct, usize)>,
)
    requires
        inventory.wf(),
        even_patterns(book),
        cached is Some ==> cached.unwrap() < book.recipes@.len(),
        call_ensures(search, (book, inventory, cached), Some(found)),
    ensures
        !holds_something(inventory@) ==> found is None,
        found matches Some((result, i)) ==> {
            &&& i < book.recipes@.len()
            &&& made_by(book, inventory@, i as int) == Some(result)
            &&& cached is Some && made_by(book, inventory@, cached.unwrap() as int) is Some
                ==> cached == Some(i)
            &&& cached is None || made_by(book, inventory@, cached.unwrap() as int) is None
                ==> forall|j: int| 0 <= j < i ==> #[trigger] made_by(book, inventory@, j) is None
        },
        holds_something(inventory@) && found is None ==> forall|j: int|
            0 <= j < book.recipes@.len() ==> #[trigger] made_by(book, inventory@, j) is None,
{
    law_search_finds_what_can_be_made(book, inventory@, cached);
}

/// What a slot shows and remembers once it has been shown anew: what a recipe makes of its grid, by
/// item and count, and that recipe; or the empty stack and what it remembered before, where nothing
/// can be made.
pub open spec fn shows_what_can_be_made(before: &ResultSlot, after: &ResultSlot) -> bool {
    let grid = before.inventory@;
    let nothing = !holds_something(grid) || forall|j: int|
        0 <= j < before.book().recipes@.len() ==> #[trigger] made_by(before.book(), grid, j)
            is None;
    &&& after.inventory == before.inventory
    &&& after.id == before.id
    &&& after.book() == before.book()
    &&& nothing ==> {
        &&& after.result.item_count == 0
        &&& after.result.item@ == "minecraft:air"@
        &&& after.cached() == before.cached()
    }
    &&& !nothing ==> {
        &&& after.cached() matches Some(i) && i < before.book().recipes@.len()
        &&& made_by(before.book(), grid, after.cached().unwrap() as int) matches Some(result)
            && result.id@ == after.result.item@ && result.count == after.result.item_count
    }
}

/// Showing a slot anew shows what can be made of its grid, and answers with what is shown.
pub proof fn law_call_refill_output(slot: &mut ResultSlot, output: ItemStack)
    requires
        old(slot).wf(),
        even_patterns(old(slot).book()),
        call_ensures(ResultSlot::refill_output, (slot,), output),
    ensures
        shows_what_can_be_made(old(slot), final(slot)),
        output == final(slot).result,
{
    law_slot_shows_what_can_be_made(&*old(slot), &*final(slot));
}

/// Setting the stack of a slot shows it anew, whatever the stack.
pub proof fn law_call_set_stack(slot: &mut ResultSlot, stack: ItemStack)
    requires
        old(slot).wf(),
        even_patterns(old(slot).book()),
        call_ensures(ResultSlot::set_stack, (slot, stack), ()),
    ensures
        shows_what_can_be_made(old(slot), final(slot)),
{
    law_slot_shows_what_can_be_made(&*old(slot), &*final(slot));
}

/// Setting the stack of a slot shows it anew, whatever the stacks.
pub proof fn law_call_set_stack_prev(slot: &mut ResultSlot, stack: ItemStack, previous: ItemStack)
    requires
        old(slot).wf(),
        even_patterns(old(slot).book()),
        call_ensures(ResultSlot::set_stack_prev, (slot, stack, previous), ()),
    ensures
        shows_what_can_be_made(old(slot), final(slot)),
{
    law_slot_shows_what_can_be_made(&*old(slot), &*final(slot));
}

/// A quick move of a result shows the slot anew, whatever the stacks.
pub proof fn law_call_on_quick_move_crafted(
    slot: &mut ResultSlot,
    stack: ItemStack,
    previous: ItemStack,
)
    requires
        old(slot).wf(),
        even_patterns(old(slot).book()),
        call_ensures(ResultSlot::on_quick_move_crafted, (slot, stack, previous), ()),
    ensures
        shows_what_can_be_made(old(slot), final(slot)),
{
    law_slot_shows_what_can_be_made(&*old(slot), &*final(slot));
}

/// A change of the result slot, which is the first of the screen, or of a slot of the input grid,
/// which come next, shows the slot anew, and what is shown is to be sent on as the stack of the
/// first slot. A change of any later slot does nothing.
pub proof fn law_call_on_slot_update(
    slot: &mut ResultSlot,
    number: u8,
    stack: ItemStack,
    update: Option<SlotUpdate>,
)
    requires
        old(slot).wf(),
        even_patterns(old(slot).book()),
        call_ensures(ResultSlot::on_slot_update, (slot, number, stack), update),
    ensures
        update is Some <==> number < recipe_slots(
            0,
            old(slot).inventory@.width,
            old(slot).inventory@.height,
        ).len(),
        update is Some <==> number < 1 + old(slot).inventory@.stacks.len(),
        update matches Some(sent) ==> {
            &&& shows_what_can_be_made(old(slot), final(slot))
            &&& sent.slot == 0
            &&& sent.stack == final(slot).result
        },
        update is None ==> *final(slot) == *old(slot),
{
    if update is Some {
        law_slot_shows_what_can_be_made(&*old(slot), &*final(slot));
    }
}

/// A match answers with the result that its recipe makes of the grid, and with that recipe, which
/// is then remembered. Without a match nothing changes.
pub proof fn law_call_match_recipe(
    slot: &mut ResultSlot,
    found: Option<(RecipeResultStruct, &'static CraftingRecipeTypes)>,
)
    requires
        old(slot).wf(),
        even_patterns(old(slot).book()),
        call_ensures(ResultSlot::match_recipe, (slot,), found),
    ensures
        ({
            let book = old(slot).book();
            let grid = old(slot).inventory@;
            &&& found is Some <==> holds_something(grid) && exists|j: int|
                0 <= j < book.recipes@.len() && #[trigger] made_by(book, grid, j) is Some
            &&& found matches Some((result, recipe)) ==> {
                &&& final(slot).cached() matches Some(i) && i < book.recipes@.len() && *recipe
                    == book.recipes@[i as int]
                &&& made(*recipe, book.decorated_pot_ingredients@, grid) == Some(result)
                &&& old(slot).cached() is Some && made_by(
                    book,
                    grid,
                    old(slot).cached().unwrap() as int,
                ) is Some ==> final(slot).cached() == old(slot).cached()
                &&& old(slot).cached() is None || made_by(
                    book,
                    grid,
                    old(slot).cached().unwrap() as int,
                ) is None ==> forall|j: int|
                    0 <= j < final(slot).cached().unwrap() ==> #[trigger] made_by(book, grid, j)
                        is None
            }
            &&& found is None ==> final(slot).cached() == old(slot).cached()
            &&& final(slot).result == old(slot).result
            &&& final(slot).inventory == old(slot).inventory
            &&& final(slot).id == old(slot).id
            &&& final(slot).book() == book
        }),
{
    law_search_finds_what_can_be_made(
        old(slot).book(),
        old(slot).inventory@,
        old(slot).cached(),
    );
}

/// Using a stack takes one item from it, if there is something in it, and none else.
pub proof fn law_call_use_one(stack: ItemStack, left: ItemStack)
    requires
        call_ensures(use_one, (stack,), left),
    ensures
        left.item == stack.item,
        something(stack) ==> left.item_count == stack.item_count - 1,
        !something(stack) ==> left.item_count == stack.item_count,
{
}

/// Taking a result takes one item from each stack of the grid that has something in it, and notes
/// the change. What the slot shows and remembers stays.
pub proof fn law_call_on_take_item(slot: &mut ResultSlot, stack: &ItemStack)
    requires
        call_ensures(ResultSlot::on_take_item, (slot, stack), ()),
    ensures
        final(slot).inventory.is_dirty(),
        final(slot).result == old(slot).result,
        final(slot).id == old(slot).id,
        final(slot).book() == old(slot).book(),
        final(slot).cached() == old(slot).cached(),
        ({
            let before = old(slot).inventory@;
            let after = final(slot).inventory@;
            &&& after.width == before.width
            &&& after.height == before.height
            &&& after.stacks.len() == before.stacks.len()
            &&& forall|i: int|
                0 <= i < before.stacks.len() ==> {
                    &&& (#[trigger] after.stacks[i]).item == before.stacks[i].item
                    &&& after.stacks[i].item_count == before.stacks[i].item_count - if something(
                        before.stacks[i],
                    ) {
                        1int
                    } else {
                        0
                    }
                }
        }),
{
    let before = old(slot).inventory@;
    let after = final(slot).inventory@;
    assert forall|i: int| 0 <= i < before.stacks.len() implies {
        &&& (#[trigger] after.stacks[i]).item == before.stacks[i].item
        &&& after.stacks[i].item_count == before.stacks[i].item_count - if something(
            before.stacks[i],
        ) {
            1int
        } else {
            0
        }
    } by {
        law_use_takes_one_item(before, i);
    }
}

/// The largest count is the largest number that no count of a stack with something in it lies
/// below.
pub proof fn law_call_get_max_item_count(slot: &ResultSlot, count: u8, bound: u8)
    requires
        call_ensures(ResultSlot::get_max_item_count, (slot,), count),
    ensures
        bound <= count <==> forall|i: int|
            0 <= i < slot.inventory@.stacks.len() && something(
                #[trigger] slot.inventory@.stacks[i],
            ) ==> bound <= slot.inventory@.stacks[i].item_count,
{
    let stacks = slot.inventory@.stacks;
    law_largest_number_of_uses(stacks, bound);
    if bound <= count {
        assert forall|i: int| 0 <= i < stacks.len() && something(#[trigger] stacks[i]) implies bound
            <= stacks[i].item_count by {
            assert(stacks[i].item_count > 0);
        }
    }
}

/// Whatever amounts are asked for, the same is taken: all that the slot shows, and the empty stack
/// if it shows nothing.
pub proof fn law_call_take_stack(
    slot: &ResultSlot,
    amount: u8,
    taken: ItemStack,
    other_amount: u8,
    other_taken: ItemStack,
)
    requires
        call_ensures(ResultSlot::take_stack, (slot, amount), taken),
        call_ensures(ResultSlot::take_stack, (slot, other_amount), other_taken),
    ensures
        taken == other_taken,
        something(slot.result) ==> taken == slot.result,
        !something(slot.result) ==> taken.item_count == 0 && taken.item@ == "minecraft:air"@,
{
}

/// A slot has a stack if and only if there is something in what it shows, and both ways to ask for
/// the stack answer with that.
pub proof fn law_call_get_stack(
    slot: &ResultSlot,
    has: bool,
    stack: &ItemStack,
    copied: ItemStack,
)
    requires
        call_ensures(ResultSlot::has_stack, (slot,), has),
        call_ensures(ResultSlot::get_stack, (slot,), stack),
        call_ensures(ResultSlot::get_cloned_stack, (slot,), copied),
    ensures
        has <==> something(slot.result),
        *stack == slot.result,
        copied == slot.result,
{
}

/// No stack can be put into a result slot.
pub proof fn law_call_can_insert(slot: &ResultSlot, stack: &ItemStack, insertable: bool)
    requires
        call_ensures(ResultSlot::can_insert, (slot, stack), insertable),
    ensures
        !insertable,
{
}

/// A number and its lowest byte differ by a multiple of two hundred and fifty-six. A smaller number
/// is kept as it is. Nothing else of the slot changes.
pub proof fn law_call_set_id(slot: &mut ResultSlot, id: usize)
    requires
        call_ensures(ResultSlot::set_id, (slot, id), ()),
    ensures
        id < 256 ==> final(slot).id == id,
        (id - final(slot).id) % 256 == 0,
        final(slot).result == old(slot).result,
        final(slot).inventory == old(slot).inventory,
        final(slot).book() == old(slot).book(),
        final(slot).cached() == old(slot).cached(),
{
}

/// Noting a change of the grid changes nothing but that the change is noted.
pub proof fn law_call_mark_dirty(slot: &mut ResultSlot)
    requires
        call_ensures(ResultSlot::mark_dirty, (slot,), ()),
    ensures
        final(slot).inventory.is_dirty(),
        final(slot).inventory@ == old(slot).inventory@,
        final(slot).result == old(slot).result,
        final(slot).id == old(slot).id,
        final(slot).book() == old(slot).book(),
        final(slot).cached() == old(slot).cached(),
{
}

/// Every result slot answers with the same index.
pub proof fn law_call_get_index(slot: &ResultSlot, index: usize)
    requires
        call_ensures(ResultSlot::get_index, (slot,), index),
    ensures
        index == 999,
{
}

/// A slot with a book of sound recipes always says that it can be shown anew.
pub proof fn law_call_is_matchable(slot: &ResultSlot, matchable: bool)
    requires
        slot.wf(),
        forall|i: int|
            0 <= i < slot.book().recipes@.len() ==> sound_recipe(
                #[trigger] slot.book().recipes@[i],
            ),
        call_ensures(ResultSlot::is_matchable, (slot,), matchable),
    ensures
        matchable,
{
    law_slot_with_a_sound_book_can_match(slot);
}

/// A new slot is over the given grid, goes by the given book, shows nothing and remembers nothing.
pub proof fn law_call_new_slot(inventory: WorkstationInventory, book: RecipeBook, slot: ResultSlot)
    requires
        call_ensures(ResultSlot::new, (inventory, book), slot),
    ensures
        slot.inventory == inventory,
        slot.book() == book,
        slot.cached() is None,
        slot.result.item_count == 0,
        slot.result.item@ == "minecraft:air"@,
        slot.id == 0,
{
}

/// What is read from a cell of a grid after it was set is what was set, and all other cells read as
/// before.
pub proof fn law_call_set_then_get(
    inventory: &mut WorkstationInventory,
    slot: usize,
    stack: ItemStack,
    other: usize,
    read: ItemStack,
    read_before: ItemStack,
)
    requires
        slot < old(inventory)@.stacks.len(),
        other < old(inventory)@.stacks.len(),
        call_ensures(WorkstationInventory::get_stack, (&*old(inventory), other), read_before),
        call_ensures(WorkstationInventory::set_stack, (inventory, slot, stack), ()),
        call_ensures(WorkstationInventory::get_stack, (&*final(inventory), other), read),
    ensures
        other == slot ==> read == stack,
        other != slot ==> read == read_before,
{
}

/// A cache answers with the recipe that was remembered last.
pub proof fn law_call_set_then_get_cached(cache: &mut RecipeCache, i: usize, cached: Option<usize>)
    requires
        call_ensures(RecipeCache::set, (cache, i), ()),
        call_ensures(RecipeCache::get, (&*final(cache),), cached),
    ensures
        cached == Some(i),
        final(cache).book() == old(cache).book(),
{
}

/// The course of a move, as it is told by its run, is what comes of asking it for its action and
/// handing it the answers, one after the other.
pub proof fn law_call_quick_move(
    answers: Answers,
    m: QuickMove,
    steps: nat,
    action: Action,
    next: QuickMove,
)
    requires
        m !is Finished,
        call_ensures(QuickMove::action, (m,), action),
        call_ensures(QuickMove::resume, (m, answers.event(m)), next),
    ensures
        run(answers, m, steps + 1) == seq![action] + run(answers, next, steps),
{
}

/// A move that has finished asks for nothing but that its stack be answered.
pub proof fn law_call_finished_move(answers: Answers, stack: ItemStack, action: Action)
    requires
        call_ensures(QuickMove::action, (QuickMove::Finished { stack },), action),
    ensures
        action == (Action::Return { stack }),
{
}

/// The screen of a crafting table shows its result, its nine cells in order, and then the slots of
/// the player in the order in which the player gives them. The result slot is told of changes, the
/// grid holds nothing, and nothing is shown or remembered.
pub proof fn law_call_new_crafting_table(
    sync_id: u8,
    player: &PlayerInventory,
    book: RecipeBook,
    handler: CraftingTableScreenHandler,
    k: int,
)
    requires
        call_ensures(CraftingTableScreenHandler::new, (sync_id, player, book), handler),
        0 <= k,
    ensures
        ({
            let behaviour = handler.behaviour();
            &&& behaviour.sync_id == sync_id
            &&& behaviour.window_type == Some(WindowType::Crafting)
            &&& behaviour.slots@.len() == 10 + player.screen_slots@.len()
            &&& behaviour.slots@[0] == SlotKind::Result(0)
            &&& k < 9 ==> behaviour.slots@[1 + k] == (SlotKind::Input {
                workstation: 0,
                cell: k as usize,
            })
            &&& k < player.screen_slots@.len() ==> behaviour.slots@[10 + k] == SlotKind::Player(
                player.screen_slots@[k],
            )
            &&& behaviour.listeners@ == seq![0usize]
            &&& handler.book() == book
            &&& handler.result_slots().len() == 1
            &&& is_fresh(handler.result_slots()[0], book, 3, 3)
        }),
{
    let slot = handler.result_slots()[0];
    if k < 9 {
        law_square_inputs_in_order(0, 3, k);
    } else {
        law_square_inputs_in_order(0, 3, 0);
    }
    if k < player.screen_slots@.len() {
        law_player_slots(player, k);
    }
}

/// A result slot over a grid of the given size that holds nothing, by the given book, which shows
/// and remembers nothing.
pub open spec fn is_fresh(slot: ResultSlot, book: RecipeBook, width: int, height: int) -> bool {
    &&& slot.inventory@.width == width
    &&& slot.inventory@.height == height
    &&& slot.inventory@.stacks.len() == width * height
    &&& forall|i: int|
        0 <= i < width * height ==> !something(#[trigger] slot.inventory@.stacks[i])
    &&& !slot.inventory.is_dirty()
    &&& slot.book() == book
    &&& slot.cached() is None
    &&& slot.result.item_count == 0
    &&& slot.result.item@ == "minecraft:air"@
    &&& slot.id == 0
}

/// The screen of a workstation shows its result, the slots of its grid, in as many groups as the
/// grid has columns, and then the slots of the player in the order in which the player gives them.
/// The result slot is told of changes, the grid holds nothing, and nothing is shown or remembered.
pub proof fn law_call_new_workstation(
    sync_id: u8,
    player: &PlayerInventory,
    window_type: WindowType,
    width: u8,
    height: u8,
    book: RecipeBook,
    handler: WorkstationScreenHandler,
    i: int,
    j: int,
    k: int,
)
    requires
        call_ensures(
            WorkstationScreenHandler::new,
            (sync_id, player, window_type, width, height, book),
            handler,
        ),
        0 <= i < width,
        0 <= j < height,
        0 <= k < player.screen_slots@.len(),
    ensures
        ({
            let behaviour = handler.behaviour();
            &&& behaviour.sync_id == sync_id
            &&& behaviour.window_type == Some(window_type)
            &&& behaviour.slots@.len() == 1 + width * height + player.screen_slots@.len()
            &&& behaviour.slots@[0] == SlotKind::Result(0)
            &&& behaviour.slots@[1 + i * height + j] == (SlotKind::Input {
                workstation: 0,
                cell: (j + i * width) as usize,
            })
            &&& behaviour.slots@[1 + width * height + k] == SlotKind::Player(
                player.screen_slots@[k],
            )
            &&& behaviour.listeners@ == seq![0usize]
            &&& handler.book() == book
            &&& handler.result_slots().len() == 1
            &&& is_fresh(handler.result_slots()[0], book, width as int, height as int)
        }),
{
    law_recipe_slots(0, width as int, height as int, i, j);
    law_player_slots(player, k);
    assert(i * height >= 0) by (nonlinear_arith)
        requires
            i >= 0,
            height >= 0,
    ;
}

/// Adding a workstation to a screen appends its result, over the given grid and told of changes,
/// and the slots of that grid, in as many groups as the grid has columns. All slots, listeners and
/// workstations that were there stay in their places, over their own grids.
pub proof fn law_call_add_recipe_slots<H: CraftingScreenHandler<WorkstationInventory>>(
    handler: &mut H,
    inventory: WorkstationInventory,
    i: int,
    j: int,
    k: int,
)
    requires
        call_ensures(H::add_recipe_slots, (handler, inventory), ()),
        inventory.wf(),
        0 <= i < inventory@.width,
        0 <= j < inventory@.height,
        0 <= k,
        old(handler).result_slots().len() <= usize::MAX,
        old(handler).behaviour().slots@.len() <= usize::MAX,
    ensures
        ({
            let before = old(handler).behaviour();
            let after = final(handler).behaviour();
            let number = old(handler).result_slots().len();
            let start = before.slots@.len();
            let slot = final(handler).result_slots()[number as int];
            &&& after.slots@.len() == start + 1 + inventory@.width * inventory@.height
            &&& k < start ==> after.slots@[k] == before.slots@[k]
            &&& after.slots@[start as int] == SlotKind::Result(number as usize)
            &&& after.slots@[start + 1 + i * inventory@.height + j] == (SlotKind::Input {
                workstation: number as usize,
                cell: (j + i * inventory@.width) as usize,
            })
            &&& after.listeners@.len() == before.listeners@.len() + 1
            &&& k < before.listeners@.len() ==> after.listeners@[k] == before.listeners@[k]
            &&& after.listeners@.last() == start
            &&& final(handler).result_slots().len() == number + 1
            &&& k < number ==> final(handler).result_slots()[k] == old(handler).result_slots()[k]
            &&& slot.inventory == inventory
            &&& slot.book() == old(handler).book()
            &&& slot.cached() is None
            &&& !something(slot.result)
            &&& slot.id == 0
            &&& final(handler).book() == old(handler).book()
        }),
{
    law_recipe_slots(
        old(handler).result_slots().len() as usize,
        inventory@.width,
        inventory@.height,
        i,
        j,
    );
    assert(i * inventory@.height >= 0) by (nonlinear_arith)
        requires
            i >= 0,
            inventory@.height >= 0,
    ;
    let number = old(handler).result_slots().len() as int;
    if k < number {
        assert(final(handler).result_slots().drop_last()[k] == final(handler).result_slots()[k]);
    }
}

} // verus!
