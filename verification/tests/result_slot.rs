use pumpkin_inventory::inventory::WorkstationInventory;
use pumpkin_inventory::item::ItemStack;
use pumpkin_inventory::recipe_cache::RecipeCache;
use pumpkin_inventory::recipes::{CraftingRecipeTypes, Ingredient, RecipeBook, RecipeResultStruct};
use pumpkin_inventory::result_slot::{use_one, ResultSlot, RESULT_SLOT_INDEX};

const PLANK: &str = "minecraft:oak_planks";
const STICK: &str = "minecraft:stick";
const PLANKS: Ingredient = Ingredient { items: &["minecraft:oak_planks"] };
const ANYTHING: Ingredient = Ingredient { items: &["minecraft:oak_planks", "minecraft:stick"] };

const STICKS: CraftingRecipeTypes = CraftingRecipeTypes::CraftingShaped {
    key: &[('#', PLANKS)],
    pattern: &["#", "#"],
    result: RecipeResultStruct { id: "minecraft:stick", count: 4 },
};

const PAIR: CraftingRecipeTypes = CraftingRecipeTypes::CraftingShapeless {
    ingredients: &[ANYTHING, ANYTHING],
    result: RecipeResultStruct { id: "minecraft:pair", count: 2 },
};

const BOOK: RecipeBook =
    RecipeBook { recipes: &[STICKS, PAIR], decorated_pot_ingredients: &["minecraft:brick"] };

fn slot(stacks: &[(usize, &'static str, u8)]) -> ResultSlot {
    let mut inventory = WorkstationInventory::new(3, 3);
    for (cell, item, count) in stacks {
        inventory.set_stack(*cell, ItemStack::new(*count, item));
    }
    ResultSlot::new(inventory, BOOK)
}

fn shown(slot: &ResultSlot) -> (&'static str, u8) {
    (slot.result.item, slot.result.item_count)
}

fn set(slot: &mut ResultSlot, cell: usize, item: &'static str, count: u8) {
    slot.inventory.set_stack(cell, ItemStack::new(count, item));
}

#[test]
fn a_new_slot_shows_nothing() {
    let slot = slot(&[(0, PLANK, 1), (3, PLANK, 1)]);
    assert_eq!(shown(&slot), ("minecraft:air", 0));
    assert_eq!(slot.id, 0);
    assert!(!slot.has_stack());
    assert!(!slot.get_inventory().is_dirty());
    assert_eq!(slot.recipe_cache.get(), None);
}

#[test]
fn a_match_is_remembered() {
    let mut slot = slot(&[(0, PLANK, 1), (3, PLANK, 1)]);
    assert!(slot.is_matchable());
    let (result, recipe) = slot.match_recipe().unwrap();
    assert_eq!((result.id, result.count), ("minecraft:stick", 4));
    assert!(matches!(recipe, CraftingRecipeTypes::CraftingShaped { .. }));
    assert_eq!(slot.recipe_cache.get(), Some(0));
    assert_eq!(shown(&slot), ("minecraft:air", 0));
}

#[test]
fn the_remembered_recipe_comes_first_and_stays_without_a_match() {
    let mut slot = slot(&[(0, PLANK, 1), (4, STICK, 1)]);
    slot.refill_output();
    assert_eq!(shown(&slot), ("minecraft:pair", 2));
    assert_eq!(slot.recipe_cache.get(), Some(1));
    set(&mut slot, 4, STICK, 0);
    set(&mut slot, 3, PLANK, 1);
    slot.refill_output();
    assert_eq!(shown(&slot), ("minecraft:pair", 2));
    set(&mut slot, 3, PLANK, 0);
    let output = slot.refill_output();
    assert!(output.is_empty());
    assert_eq!(shown(&slot), ("minecraft:air", 0));
    assert_eq!(slot.recipe_cache.get(), Some(1));
}

#[test]
fn a_cache_gives_back_what_was_set() {
    let mut cache = RecipeCache::new(BOOK);
    assert_eq!(cache.get(), None);
    cache.set(1);
    assert_eq!(cache.get(), Some(1));
    cache.set(0);
    assert_eq!(cache.get(), Some(0));
    assert_eq!(cache.get_book().recipes.len(), 2);
}

#[test]
fn refilling_twice_shows_the_same() {
    let mut slot = slot(&[(1, PLANK, 3), (4, PLANK, 2)]);
    let once = slot.refill_output();
    let twice = slot.refill_output();
    assert_eq!((once.item, once.item_count), ("minecraft:stick", 4));
    assert_eq!((twice.item, twice.item_count), ("minecraft:stick", 4));
    assert_eq!(slot.recipe_cache.get(), Some(0));
}

#[test]
fn setting_a_stack_shows_the_result_anew() {
    let mut slot = slot(&[(1, PLANK, 3), (4, PLANK, 2)]);
    slot.set_stack(ItemStack::new(9, "minecraft:diamond"));
    assert_eq!(shown(&slot), ("minecraft:stick", 4));
    set(&mut slot, 4, STICK, 1);
    slot.set_stack_prev(ItemStack::empty(), ItemStack::new(9, "minecraft:diamond"));
    assert_eq!(shown(&slot), ("minecraft:pair", 2));
    set(&mut slot, 4, STICK, 0);
    slot.on_quick_move_crafted(ItemStack::empty(), ItemStack::empty());
    assert_eq!(shown(&slot), ("minecraft:air", 0));
}

#[test]
fn nothing_can_be_inserted() {
    let slot = slot(&[]);
    assert!(!slot.can_insert(&ItemStack::new(1, STICK)));
    assert!(!slot.can_insert(&ItemStack::empty()));
}

#[test]
fn taking_always_gives_the_full_stack() {
    let mut slot = slot(&[(1, PLANK, 3), (4, PLANK, 2)]);
    assert!(slot.take_stack(1).is_empty());
    slot.refill_output();
    for amount in [0, 1, 4, 255] {
        let stack = slot.take_stack(amount);
        assert_eq!((stack.item, stack.item_count), ("minecraft:stick", 4));
    }
    assert!(slot.has_stack());
    assert_eq!(slot.get_stack().item_count, 4);
    assert_eq!(slot.get_cloned_stack().item, "minecraft:stick");
    slot.result = ItemStack::new(0, STICK);
    assert_eq!(slot.take_stack(1).item, "minecraft:air");
}

#[test]
fn taking_uses_up_one_item_of_each_stack() {
    let mut slot = slot(&[(1, PLANK, 3), (4, PLANK, 1), (8, STICK, 0)]);
    slot.refill_output();
    let result = slot.result;
    slot.on_take_item(&result);
    let counts: Vec<u8> = (0..9).map(|i| slot.inventory.get_stack(i).item_count).collect();
    assert_eq!(counts, vec![0, 2, 0, 0, 0, 0, 0, 0, 0]);
    assert_eq!(slot.inventory.get_stack(4).item, PLANK);
    assert!(slot.inventory.is_dirty());
    assert_eq!(shown(&slot), ("minecraft:stick", 4));
    slot.inventory.clear_dirty();
    assert!(!slot.inventory.is_dirty());
}

#[test]
fn the_result_stays_until_a_stack_runs_out() {
    let mut slot = slot(&[(1, PLANK, 3), (4, PLANK, 7)]);
    slot.refill_output();
    assert_eq!(slot.get_max_item_count(), 3);
    for left in [2, 1] {
        let result = slot.result;
        slot.on_take_item(&result);
        slot.refill_output();
        assert_eq!(shown(&slot), ("minecraft:stick", 4));
        assert_eq!(slot.get_max_item_count(), left);
    }
    let result = slot.result;
    slot.on_take_item(&result);
    slot.refill_output();
    assert_eq!(shown(&slot), ("minecraft:air", 0));
    assert_eq!(slot.get_max_item_count(), 4);
}

#[test]
fn an_empty_grid_has_the_largest_count() {
    assert_eq!(slot(&[]).get_max_item_count(), 255);
    assert_eq!(slot(&[(0, STICK, 0)]).get_max_item_count(), 255);
    assert_eq!(slot(&[(0, STICK, 64), (2, STICK, 5)]).get_max_item_count(), 5);
}

#[test]
fn the_index_belongs_to_no_inventory() {
    assert_eq!(slot(&[]).get_index(), 999);
    assert_eq!(RESULT_SLOT_INDEX, 999);
}

#[test]
fn only_the_lowest_byte_of_a_number_is_kept() {
    let mut slot = slot(&[]);
    slot.set_id(46);
    assert_eq!(slot.id, 46);
    slot.set_id(256 + 7);
    assert_eq!(slot.id, 7);
}

#[test]
fn updates_of_the_workstation_are_answered() {
    let mut slot = slot(&[(1, PLANK, 3), (4, PLANK, 7)]);
    assert!(slot.on_slot_update(10, ItemStack::empty()).is_none());
    assert_eq!(shown(&slot), ("minecraft:air", 0));
    for number in [0, 9] {
        let update = slot.on_slot_update(number, ItemStack::empty()).unwrap();
        assert_eq!(update.slot, 0);
        assert_eq!((update.stack.item, update.stack.item_count), ("minecraft:stick", 4));
        assert_eq!(shown(&slot), ("minecraft:stick", 4));
    }
}

#[test]
fn a_recipe_yields_its_stack() {
    let stack = ItemStack::from(&RecipeResultStruct { id: STICK, count: 4 });
    assert_eq!((stack.item, stack.item_count), (STICK, 4));
}

#[test]
fn a_slot_with_a_broken_recipe_is_not_matchable() {
    let broken = CraftingRecipeTypes::CraftingShaped {
        key: &[],
        pattern: &["#"],
        result: RecipeResultStruct { id: STICK, count: 1 },
    };
    let recipes: &'static [CraftingRecipeTypes] = vec![broken].leak();
    let mut inventory = WorkstationInventory::new(3, 3);
    inventory.set_stack(4, ItemStack::new(1, STICK));
    let slot =
        ResultSlot::new(inventory, RecipeBook { recipes, decorated_pot_ingredients: &[] });
    assert!(!slot.is_matchable());
}

#[test]
fn a_slot_that_has_matched_can_match_again() {
    let mut slot = slot(&[(0, PLANK, 1), (3, PLANK, 1)]);
    assert!(slot.is_matchable());
    let (first, _) = slot.match_recipe().unwrap();
    assert!(slot.is_matchable());
    let (second, _) = slot.match_recipe().unwrap();
    assert_eq!((first.id, first.count), (second.id, second.count));
}

#[test]
fn using_a_stack_takes_one_item() {
    let left = use_one(ItemStack::new(3, PLANK));
    assert_eq!((left.item, left.item_count), (PLANK, 2));
    let last = use_one(ItemStack::new(1, PLANK));
    assert_eq!((last.item, last.item_count), (PLANK, 0));
    let none = use_one(last);
    assert_eq!((none.item, none.item_count), (PLANK, 0));
}

#[test]
fn fresh_slots_find_the_same_wherever_the_stacks_lie() {
    let mut small = WorkstationInventory::new(2, 2);
    small.set_stack(0, ItemStack::new(1, PLANK));
    small.set_stack(2, ItemStack::new(2, PLANK));
    let mut one = ResultSlot::new(small, BOOK);
    let mut other = slot(&[(5, PLANK, 1), (8, PLANK, 7)]);
    one.refill_output();
    other.refill_output();
    assert_eq!(shown(&one), ("minecraft:stick", 4));
    assert_eq!(shown(&other), ("minecraft:stick", 4));
}
