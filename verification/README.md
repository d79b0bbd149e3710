# pumpkin-inventory

Crafting workstations of a block-game server, verified with Verus.

A workstation has a grid of input stacks and a result slot. The result slot holds the recipes of a
book against the grid, the recipe that matched last first, and shows what the first match yields.
A screen shows the result and the grid of each of its workstations and the player's slots, and a
quick move carries a stack from one side of the screen to the other.

- `src/item.rs`, `src/inventory.rs`, `src/recipes.rs`: stacks, input grids and recipes.
- `src/pattern.rs`, `src/matching.rs`: when a recipe matches a grid.
- `src/search.rs`, `src/recipe_cache.rs`: finding the recipe of a grid, and remembering it.
- `src/result_slot.rs`: the result slot.
- `src/quick_move.rs`: quick moves, step by step.
- `src/screen_handler.rs`, `src/workstation_screen_handler.rs`,
  `src/crafting_table_screen_handler.rs`: screens.
- `src/laws/`: what holds of all of this together, as proof functions.
- `app/`: the same slots and screens shared between tasks, each stack behind a lock.

Items go by their registry names, and an ingredient is the list of names that it accepts. Tags and
registries are resolved by whoever fills the book.
