use pumpkin_inventory::inventory::WorkstationInventory;
use pumpkin_inventory::item::{same_name, ItemStack, AIR};
use pumpkin_inventory::matching::{recipe_matches, try_recipe_matches, RecipeMatch};
use pumpkin_inventory::pattern::is_symmetrical_horizontally;
use pumpkin_inventory::recipes::{
    is_named, lookup, CraftingRecipeTypes, Ingredient, RecipeBook, RecipeResultStruct,
};
use pumpkin_inventory::search::{find_area, search};

const PLANK: &str = "minecraft:oak_planks";
const STICK: &str = "minecraft:stick";
const STONE: &str = "minecraft:cobblestone";
const COAL: &str = "minecraft:coal";
const CHARCOAL: &str = "minecraft:charcoal";
const BRICK: &str = "minecraft:brick";
const SHERD: &str = "minecraft:angler_pottery_sherd";
const POTS: &[&str] = &[BRICK, SHERD];

const PLANKS: Ingredient = Ingredient { items: &["minecraft:oak_planks", "minecraft:birch_planks"] };
const STICKS: Ingredient = Ingredient { items: &["minecraft:stick"] };
const STONES: Ingredient = Ingredient { items: &["minecraft:cobblestone"] };
const COALS: Ingredient = Ingredient { items: &["minecraft:coal", "minecraft:charcoal"] };
const ONLY_COAL: Ingredient = Ingredient { items: &["minecraft:coal"] };

const AXE: CraftingRecipeTypes = CraftingRecipeTypes::CraftingShaped {
    key: &[('#', PLANKS), ('|', STICKS)],
    pattern: &["##", "#|", " |"],
    result: RecipeResultStruct { id: "minecraft:wooden_axe", count: 1 },
};

const PICKAXE: CraftingRecipeTypes = CraftingRecipeTypes::CraftingShaped {
    key: &[('#', PLANKS), ('|', STICKS)],
    pattern: &["###", " | ", " | "],
    result: RecipeResultStruct { id: "minecraft:wooden_pickaxe", count: 1 },
};

const STICK_RECIPE: CraftingRecipeTypes = CraftingRecipeTypes::CraftingShaped {
    key: &[('#', PLANKS)],
    pattern: &["#", "#"],
    result: RecipeResultStruct { id: "minecraft:stick", count: 4 },
};

const ROW: CraftingRecipeTypes = CraftingRecipeTypes::CraftingShaped {
    key: &[('#', STONES)],
    pattern: &["##"],
    result: RecipeResultStruct { id: "minecraft:row", count: 2 },
};

const FUEL: CraftingRecipeTypes = CraftingRecipeTypes::CraftingShapeless {
    ingredients: &[COALS, STICKS],
    result: RecipeResultStruct { id: "minecraft:torch", count: 4 },
};

const OVERLAPPING: CraftingRecipeTypes = CraftingRecipeTypes::CraftingShapeless {
    ingredients: &[COALS, ONLY_COAL],
    result: RecipeResultStruct { id: "minecraft:ember", count: 1 },
};

const DYE: CraftingRecipeTypes = CraftingRecipeTypes::CraftingTransmute {
    input: STONES,
    material: STICKS,
    result: RecipeResultStruct { id: "minecraft:dyed", count: 1 },
};

fn grid(width: u8, height: u8, stacks: &[(usize, &'static str, u8)]) -> WorkstationInventory {
    let mut inventory = WorkstationInventory::new(width, height);
    for (slot, item, count) in stacks {
        inventory.set_stack(*slot, ItemStack::new(*count, item));
    }
    inventory
}

fn outcome(recipe: &CraftingRecipeTypes, inventory: &WorkstationInventory) -> RecipeMatch {
    let area = find_area(inventory).unwrap();
    try_recipe_matches(
        recipe,
        area.input_height,
        area.input_width,
        area.top_x,
        area.top_y,
        area.count,
        inventory,
        POTS,
    )
}

fn yields(recipe: &CraftingRecipeTypes, inventory: &WorkstationInventory) -> Option<(&'static str, u8)> {
    match outcome(recipe, inventory) {
        RecipeMatch::Yields(result) => {
            let area = find_area(inventory).unwrap();
            let same = recipe_matches(
                recipe,
                area.input_height,
                area.input_width,
                area.top_x,
                area.top_y,
                area.count,
                inventory,
                POTS,
            )
            .unwrap();
            assert_eq!((same.id, same.count), (result.id, result.count));
            Some((result.id, result.count))
        }
        RecipeMatch::NoMatch => None,
        RecipeMatch::Undefined => panic!("cannot be held against the grid"),
    }
}

#[test]
fn names_are_compared_by_their_characters() {
    assert!(same_name("minecraft:air", AIR));
    assert!(!same_name("minecraft:ai", AIR));
    assert!(!same_name("minecraft:aix", AIR));
    assert!(same_name("", ""));
    assert!(same_name("ä", "ä"));
    assert!(!same_name("ä", "ö"));
}

#[test]
fn stacks_are_empty_without_items_or_with_air() {
    assert!(ItemStack::empty().is_empty());
    assert!(ItemStack::new(0, STONE).is_empty());
    assert!(ItemStack::new(3, AIR).is_empty());
    assert!(!ItemStack::new(1, STONE).is_empty());
    assert_eq!(ItemStack::empty().item, "minecraft:air");
    assert_eq!(ItemStack::empty().item_count, 0);
}

#[test]
fn ingredients_accept_the_items_they_name() {
    assert!(COALS.match_item(COAL));
    assert!(COALS.match_item(CHARCOAL));
    assert!(!COALS.match_item(STONE));
    assert!(is_named(POTS, SHERD));
    assert!(!is_named(&[], SHERD));
}

#[test]
fn the_first_entry_of_a_key_counts() {
    let key: &'static [(char, Ingredient)] = &[('a', STICKS), ('b', STONES), ('a', COALS)];
    assert!(lookup(key, 'a').unwrap().match_item(STICK));
    assert!(!lookup(key, 'a').unwrap().match_item(COAL));
    assert!(lookup(key, 'c').is_none());
}

#[test]
fn symmetry_of_patterns() {
    assert!(is_symmetrical_horizontally(&[]));
    assert!(is_symmetrical_horizontally(&["###", " | ", " | "]));
    assert!(is_symmetrical_horizontally(&["#"]));
    assert!(!is_symmetrical_horizontally(&["##", "#|", " |"]));
    assert!(!is_symmetrical_horizontally(&["##", "#"]));
    assert!(!is_symmetrical_horizontally(&["#", "##"]));
    assert!(is_symmetrical_horizontally(&[""]));
}

#[test]
fn symmetry_counts_bytes() {
    // Four bytes, two characters: the last two places have no character.
    assert!(!is_symmetrical_horizontally(&["ää"]));
    assert!(!is_symmetrical_horizontally(&["#ä"]));
}

#[test]
fn shaped_recipe_matches_as_it_stands() {
    let table = grid(3, 3, &[(0, PLANK, 1), (1, PLANK, 5), (3, PLANK, 1), (4, STICK, 1), (7, STICK, 9)]);
    assert_eq!(yields(&AXE, &table), Some(("minecraft:wooden_axe", 1)));
}

#[test]
fn shaped_recipe_matches_mirrored() {
    let table = grid(3, 3, &[(0, PLANK, 1), (1, PLANK, 1), (4, PLANK, 1), (3, STICK, 1), (6, STICK, 1)]);
    assert_eq!(yields(&AXE, &table), Some(("minecraft:wooden_axe", 1)));
}

#[test]
fn shaped_recipe_matches_anywhere() {
    for cell in [0, 1, 2, 3, 4, 5] {
        let table = grid(3, 3, &[(cell, PLANK, 2), (cell + 3, PLANK, 2)]);
        assert_eq!(yields(&STICK_RECIPE, &table), Some(("minecraft:stick", 4)));
    }
}

#[test]
fn shaped_recipe_wants_the_right_size_count_and_items() {
    let beside = grid(3, 3, &[(0, PLANK, 2), (1, PLANK, 2)]);
    assert_eq!(yields(&STICK_RECIPE, &beside), None);
    let three = grid(3, 3, &[(0, PLANK, 2), (3, PLANK, 2), (6, PLANK, 2)]);
    assert_eq!(yields(&STICK_RECIPE, &three), None);
    let other = grid(3, 3, &[(0, PLANK, 2), (3, STONE, 2)]);
    assert_eq!(yields(&STICK_RECIPE, &other), None);
    let apart = grid(3, 3, &[(0, PLANK, 1), (1, PLANK, 1), (2, PLANK, 1), (4, STICK, 1), (6, STICK, 1)]);
    assert_eq!(yields(&PICKAXE, &apart), None);
}

#[test]
fn shaped_match_leaves_no_stack_over() {
    // As many stacks as the pattern asks for, but one of them over a blank.
    let table = grid(3, 3, &[(0, PLANK, 1), (1, PLANK, 1), (2, PLANK, 1), (3, STICK, 1), (7, STICK, 1)]);
    assert_eq!(yields(&PICKAXE, &table), None);
}

#[test]
fn items_left_behind_by_empty_stacks_do_not_make_a_recipe() {
    let table = grid(3, 3, &[(0, PLANK, 1), (3, PLANK, 0)]);
    assert_eq!(yields(&STICK_RECIPE, &table), None);
}

#[test]
fn rows_are_counted_off_by_the_width() {
    for cell in [0, 1, 3, 4] {
        let wide = grid(3, 2, &[(cell, STONE, 1), (cell + 1, STONE, 1)]);
        assert_eq!(yields(&ROW, &wide), Some(("minecraft:row", 2)));
    }
    let broken = grid(3, 2, &[(2, STONE, 1), (3, STONE, 1)]);
    assert_eq!(yields(&ROW, &broken), None);
    for cell in [0, 2, 4] {
        let tall = grid(2, 3, &[(cell, STONE, 1), (cell + 1, STONE, 1)]);
        assert_eq!(yields(&ROW, &tall), Some(("minecraft:row", 2)));
    }
}

#[test]
fn a_square_of_sticks_matches_in_a_tall_grid() {
    let square = CraftingRecipeTypes::CraftingShaped {
        key: &[('#', STICKS)],
        pattern: &["##", "##"],
        result: RecipeResultStruct { id: "minecraft:crate", count: 1 },
    };
    let recipes: &'static [CraftingRecipeTypes] = vec![square].leak();
    let book = RecipeBook { recipes, decorated_pot_ingredients: POTS };
    for first in [0, 2] {
        let cells: Vec<(usize, &'static str, u8)> =
            (first..first + 4).map(|cell| (cell, STICK, 1)).collect();
        assert_eq!(found(book, &grid(2, 3, &cells), None), Some(("minecraft:crate", 0)));
    }
}

#[test]
fn a_pattern_past_the_end_of_a_grid_is_undefined() {
    let table = grid(3, 3, &[(0, STONE, 1), (8, STONE, 1)]);
    for (top_x, top_y) in [(2, 2), (0, 3), (9, 0)] {
        assert!(matches!(
            try_recipe_matches(&ROW, 1, 2, top_x, top_y, 2, &table, POTS),
            RecipeMatch::Undefined
        ));
    }
    assert!(matches!(
        try_recipe_matches(&ROW, 1, 2, 1, 2, 2, &table, POTS),
        RecipeMatch::NoMatch
    ));
}

#[test]
fn a_row_longer_than_the_first_is_undefined_past_the_end_of_the_grid() {
    let uneven = CraftingRecipeTypes::CraftingShaped {
        key: &[('#', STONES)],
        pattern: &["#", "##"],
        result: RecipeResultStruct { id: "minecraft:nothing", count: 1 },
    };
    let column = grid(1, 3, &[(0, STONE, 1), (1, STONE, 1), (2, STONE, 1)]);
    assert!(matches!(
        try_recipe_matches(&uneven, 2, 1, 0, 1, 3, &column, POTS),
        RecipeMatch::Undefined
    ));
}

#[test]
fn unknown_key_is_undefined_once_reached() {
    let broken = CraftingRecipeTypes::CraftingShaped {
        key: &[('#', STONES)],
        pattern: &["#?"],
        result: RecipeResultStruct { id: "minecraft:nothing", count: 1 },
    };
    let reached = grid(3, 3, &[(0, STONE, 1), (1, STONE, 1)]);
    assert!(matches!(outcome(&broken, &reached), RecipeMatch::Undefined));
    let wrong_size = grid(3, 3, &[(0, STONE, 1)]);
    assert!(matches!(outcome(&broken, &wrong_size), RecipeMatch::NoMatch));
}

#[test]
fn empty_pattern_is_undefined_only_for_an_area_without_rows() {
    let empty = CraftingRecipeTypes::CraftingShaped {
        key: &[],
        pattern: &[],
        result: RecipeResultStruct { id: "minecraft:nothing", count: 1 },
    };
    let table = grid(3, 3, &[(0, STONE, 1)]);
    assert!(matches!(outcome(&empty, &table), RecipeMatch::NoMatch));
    let none = try_recipe_matches(&empty, 0, 0, 0, 0, 0, &table, POTS);
    assert!(matches!(none, RecipeMatch::Undefined));
}

#[test]
fn rows_with_wide_characters_are_undefined_once_read_to_the_end() {
    let wide = CraftingRecipeTypes::CraftingShaped {
        key: &[('ä', STONES)],
        pattern: &["ä"],
        result: RecipeResultStruct { id: "minecraft:nothing", count: 1 },
    };
    let table = grid(3, 3, &[(0, STONE, 1), (1, STONE, 1)]);
    assert!(matches!(
        try_recipe_matches(&wide, 1, 2, 0, 0, 1, &table, POTS),
        RecipeMatch::Undefined
    ));
}

#[test]
fn shapeless_recipe_matches_in_any_cells() {
    assert_eq!(yields(&FUEL, &grid(3, 3, &[(0, COAL, 1), (8, STICK, 1)])), Some(("minecraft:torch", 4)));
    assert_eq!(yields(&FUEL, &grid(3, 3, &[(2, STICK, 1), (6, CHARCOAL, 1)])), Some(("minecraft:torch", 4)));
    assert_eq!(yields(&FUEL, &grid(3, 3, &[(0, COAL, 1), (1, COAL, 1)])), None);
    assert_eq!(yields(&FUEL, &grid(3, 3, &[(0, COAL, 1)])), None);
    assert_eq!(yields(&FUEL, &grid(3, 3, &[(0, COAL, 1), (1, STICK, 1), (2, STICK, 1)])), None);
}

#[test]
fn shapeless_stacks_take_the_first_ingredient_left_over() {
    // Coal takes the ingredient that charcoal would need.
    assert_eq!(yields(&OVERLAPPING, &grid(3, 3, &[(0, COAL, 1), (1, CHARCOAL, 1)])), None);
    assert_eq!(
        yields(&OVERLAPPING, &grid(3, 3, &[(0, CHARCOAL, 1), (1, COAL, 1)])),
        Some(("minecraft:ember", 1))
    );
}

#[test]
fn transmutation_wants_two_stacks_of_input_or_material() {
    assert_eq!(yields(&DYE, &grid(3, 3, &[(0, STONE, 1), (5, STICK, 1)])), Some(("minecraft:dyed", 1)));
    assert_eq!(yields(&DYE, &grid(3, 3, &[(0, STONE, 1), (5, STONE, 1)])), Some(("minecraft:dyed", 1)));
    assert_eq!(yields(&DYE, &grid(3, 3, &[(0, STONE, 1), (5, COAL, 1)])), None);
    assert_eq!(yields(&DYE, &grid(3, 3, &[(0, STONE, 1)])), None);
}

#[test]
fn decorated_pot_wants_its_four_cells() {
    let pot = CraftingRecipeTypes::CraftingDecoratedPot;
    let cells = [(1, BRICK, 1), (3, SHERD, 1), (5, BRICK, 1), (7, BRICK, 1)];
    assert_eq!(yields(&pot, &grid(3, 3, &cells)), Some(("minecraft:decorated_pot", 1)));
    let shifted = [(0, BRICK, 1), (3, SHERD, 1), (5, BRICK, 1), (7, BRICK, 1)];
    assert_eq!(yields(&pot, &grid(3, 3, &shifted)), None);
    let other = [(1, BRICK, 1), (3, STONE, 1), (5, BRICK, 1), (7, BRICK, 1)];
    assert_eq!(yields(&pot, &grid(3, 3, &other)), None);
    let five = [(1, BRICK, 1), (3, SHERD, 1), (5, BRICK, 1), (7, BRICK, 1), (4, BRICK, 1)];
    assert_eq!(yields(&pot, &grid(3, 3, &five)), None);
    assert_eq!(yields(&pot, &grid(4, 4, &cells)), None);
}

#[test]
fn special_recipes_never_match() {
    assert_eq!(yields(&CraftingRecipeTypes::CraftingSpecial, &grid(3, 3, &[(0, STONE, 1)])), None);
}

#[test]
fn area_is_the_rectangle_of_the_stacks() {
    assert!(find_area(&grid(3, 3, &[])).is_none());
    assert!(find_area(&grid(3, 3, &[(4, STONE, 0)])).is_none());
    let area = find_area(&grid(3, 3, &[(1, STONE, 1), (5, STONE, 1)])).unwrap();
    assert_eq!(
        (area.top_x, area.top_y, area.input_width, area.input_height, area.count),
        (1, 0, 2, 2, 2)
    );
    let area = find_area(&grid(3, 3, &[(8, STONE, 1)])).unwrap();
    assert_eq!(
        (area.top_x, area.top_y, area.input_width, area.input_height, area.count),
        (2, 2, 1, 1, 1)
    );
}

#[test]
fn area_can_start_anywhere_in_a_large_grid() {
    let area = find_area(&grid(12, 12, &[(12 * 11 + 11, STONE, 1)])).unwrap();
    assert_eq!((area.top_x, area.top_y, area.input_width, area.input_height), (11, 11, 1, 1));
    let area = find_area(&grid(12, 12, &[(12 * 10 + 11, STONE, 1), (12 * 11, STONE, 1)])).unwrap();
    assert_eq!((area.top_x, area.top_y, area.input_width, area.input_height), (0, 10, 12, 2));
}

#[test]
fn a_single_stick_matches_in_the_last_cell_of_a_large_grid() {
    let single = CraftingRecipeTypes::CraftingShaped {
        key: &[('#', STICKS)],
        pattern: &["#"],
        result: RecipeResultStruct { id: "minecraft:splinter", count: 2 },
    };
    let recipes: &'static [CraftingRecipeTypes] = vec![single].leak();
    let book = RecipeBook { recipes, decorated_pot_ingredients: POTS };
    let last = grid(11, 11, &[(120, STICK, 1)]);
    assert_eq!(found(book, &last, None), Some(("minecraft:splinter", 0)));
}

fn found(book: RecipeBook, inventory: &WorkstationInventory, cached: Option<usize>) -> Option<(&'static str, usize)> {
    search(book, inventory, cached).unwrap().map(|(result, i)| (result.id, i))
}

#[test]
fn the_search_takes_the_remembered_recipe_first() {
    let book = RecipeBook {
        recipes: &[FUEL, DYE, ROW],
        decorated_pot_ingredients: POTS,
    };
    let stones = grid(3, 3, &[(0, STONE, 1), (1, STONE, 1)]);
    assert_eq!(found(book, &stones, None), Some(("minecraft:dyed", 1)));
    assert_eq!(found(book, &stones, Some(2)), Some(("minecraft:row", 2)));
    assert_eq!(found(book, &stones, Some(0)), Some(("minecraft:dyed", 1)));
    let torch = grid(3, 3, &[(0, COAL, 1), (1, STICK, 1)]);
    assert_eq!(found(book, &torch, Some(2)), Some(("minecraft:torch", 0)));
    assert_eq!(found(book, &grid(3, 3, &[(0, BRICK, 1)]), None), None);
    assert_eq!(found(book, &grid(3, 3, &[]), Some(2)), None);
}

#[test]
fn the_search_fails_only_on_recipes_that_it_reaches() {
    let broken = CraftingRecipeTypes::CraftingShaped {
        key: &[],
        pattern: &["##"],
        result: RecipeResultStruct { id: "minecraft:nothing", count: 1 },
    };
    let recipes: &'static [CraftingRecipeTypes] = vec![ROW, broken].leak();
    let book = RecipeBook { recipes, decorated_pot_ingredients: POTS };
    let stones = grid(3, 3, &[(0, STONE, 1), (1, STONE, 1)]);
    assert_eq!(found(book, &stones, None), Some(("minecraft:row", 0)));
    assert!(search(book, &stones, Some(1)).is_none());
    let coals = grid(3, 3, &[(0, COAL, 1), (1, COAL, 1)]);
    assert!(search(book, &coals, None).is_none());
}

#[test]
fn counts_do_not_matter_to_the_search() {
    let book = RecipeBook { recipes: &[AXE, PICKAXE], decorated_pot_ingredients: POTS };
    for count in [1, 2, 64] {
        let cells = [(0, PLANK, count), (1, PLANK, 1), (2, PLANK, count), (4, STICK, 7), (7, STICK, count)];
        assert_eq!(found(book, &grid(3, 3, &cells), None), Some(("minecraft:wooden_pickaxe", 1)));
    }
}

#[test]
fn memory_is_no_matter_where_one_recipe_matches() {
    let book = RecipeBook { recipes: &[AXE, PICKAXE, FUEL], decorated_pot_ingredients: POTS };
    let torch = grid(3, 3, &[(0, COAL, 1), (1, STICK, 1)]);
    for cached in [None, Some(0), Some(1), Some(2)] {
        assert_eq!(found(book, &torch, cached), Some(("minecraft:torch", 2)));
    }
}

#[test]
fn sound_recipes_can_be_held_against_any_grid() {
    for (width, height) in [(1, 1), (2, 2), (3, 3), (3, 2), (2, 3), (5, 1), (1, 5), (12, 11)] {
        let size = width as usize * height as usize;
        for first in 0..size {
            for second in [0, first, size - 1] {
                let inventory = grid(width, height, &[(first, STONE, 1), (second, PLANK, 1)]);
                for recipe in [AXE, PICKAXE, STICK_RECIPE, ROW, FUEL, DYE] {
                    assert!(!matches!(outcome(&recipe, &inventory), RecipeMatch::Undefined));
                }
            }
        }
    }
}

#[test]
fn a_symmetrical_pattern_fits_both_ways() {
    let cells = [(0, PLANK, 1), (1, PLANK, 1), (2, PLANK, 1), (4, STICK, 1), (7, STICK, 1)];
    let mirrored: Vec<(usize, &'static str, u8)> =
        cells.iter().map(|(cell, item, count)| (cell / 3 * 3 + 2 - cell % 3, *item, *count)).collect();
    assert_eq!(yields(&PICKAXE, &grid(3, 3, &cells)), Some(("minecraft:wooden_pickaxe", 1)));
    assert_eq!(yields(&PICKAXE, &grid(3, 3, &mirrored)), Some(("minecraft:wooden_pickaxe", 1)));
}

#[test]
fn position_does_not_matter_to_the_search() {
    let book = RecipeBook {
        recipes: &[AXE, STICK_RECIPE, ROW, FUEL, DYE, CraftingRecipeTypes::CraftingDecoratedPot],
        decorated_pot_ingredients: POTS,
    };
    let layouts: [(&[(usize, usize, &'static str)], Option<(&'static str, usize)>); 6] = [
        (&[(0, 0, PLANK), (1, 0, PLANK)], Some(("minecraft:stick", 1))),
        (&[(0, 0, STONE), (0, 1, STONE)], Some(("minecraft:row", 2))),
        (&[(0, 1, COAL), (1, 0, STICK)], Some(("minecraft:torch", 3))),
        (&[(0, 0, STONE), (1, 1, STICK)], Some(("minecraft:dyed", 4))),
        (&[(0, 0, PLANK), (0, 1, PLANK)], None),
        (&[(0, 1, BRICK), (1, 0, BRICK)], None),
    ];
    for (layout, expected) in layouts {
        for side in [2, 3] {
            for dy in 0..side - 1 {
                for dx in 0..side - 1 {
                    let cells: Vec<(usize, &'static str, u8)> = layout
                        .iter()
                        .map(|(y, x, item)| ((y + dy) * side + x + dx, *item, 1))
                        .collect();
                    let inventory = grid(side as u8, side as u8, &cells);
                    assert_eq!(found(book, &inventory, None), expected);
                }
            }
        }
    }
}

#[test]
fn a_pot_shifted_in_a_larger_grid_does_not_match() {
    let pot = CraftingRecipeTypes::CraftingDecoratedPot;
    let cells = [(6, BRICK, 1), (9, SHERD, 1), (11, BRICK, 1), (14, BRICK, 1)];
    assert_eq!(yields(&pot, &grid(4, 4, &cells)), None);
}
