//! What the stacks of a grid make, recipe by recipe.
use crate::inventory::Grid;
use crate::item::ItemStack;
use crate::laws::ingredients::{
    is_taken, law_shapeless_match_is_a_pairing, lemma_assigned_before, lemma_first_unused,
    lemma_used_by_partners, partner, used_set,
};
use crate::laws::occupation::{
    law_pot_uses_each_stack, law_shaped_match_uses_each_stack, lemma_covered_stacks_are_counted,
};
use crate::laws::patterns::{law_shaped_matches_either_way, rectangular};
use crate::laws::searching::{law_extent_counts_stacks, law_extent_is_tight, occupied_cells};
use crate::laws::shifting::{lemma_cell, lemma_place};
use crate::matching::{
    assign_ingredients, first_unused, pot_matches, recipe_result, shapeless_matches,
    transmute_matches,
};
use crate::pattern::{
    cell_matches, in_pattern, pattern_fits, pattern_matches, shaped_matches, Placement,
};
use crate::recipes::{
    find_ingredient, names_item, CraftingRecipeTypes, Ingredient, RecipeBook, RecipeResultStruct,
};
use crate::result_slot::ResultSlot;
use crate::search::{find_match, full_extent, lemma_first_match, nth_result, occupied_area};
use vstd::prelude::*;
use vstd::set_lib::{lemma_int_range, lemma_subset_equality, set_int_range};

verus! {

/// Whether there is something in a stack: some items, and not of air.
pub open spec fn something(stack: ItemStack) -> bool {
    stack.item_count > 0 && stack.item@ != "minecraft:air"@
}

/// A stack is empty if and only if there is nothing in it. How many items a stack counts does not
/// matter, if it counts some.
pub proof fn law_empty_stacks(stack: ItemStack)
    ensures
        stack.is_empty() <==> !something(stack),
        ItemStack::empty().item_count == 0,
        ItemStack::empty().item@ == "minecraft:air"@,
{
}

/// Whether an item stands in a list of names, in whatever place.
pub open spec fn listed(names: Seq<&'static str>, item: Seq<char>) -> bool {
    exists|m: int| 0 <= m < names.len() && (#[trigger] names[m])@ == item
}

/// An ingredient accepts every item that it names, in whatever place of its list, and no other.
pub proof fn law_ingredient_accepts_what_it_names(ingredient: Ingredient, item: Seq<char>)
    ensures
        ingredient.accepts(item) <==> listed(ingredient.items@, item),
{
}

/// Entry `k` of a key is the one that counts for a character: the first for it.
pub open spec fn counts_for(key: Seq<(char, Ingredient)>, c: char, k: int) -> bool {
    &&& 0 <= k < key.len()
    &&& key[k].0 == c
    &&& forall|j: int| 0 <= j < k ==> (#[trigger] key[j]).0 != c
}

/// The key has an ingredient for a character, and the ingredient names the item.
pub open spec fn key_names(key: Seq<(char, Ingredient)>, c: char, item: Seq<char>) -> bool {
    exists|k: int| #[trigger] counts_for(key, c, k) && listed(key[k].1.items@, item)
}

proof fn lemma_find_ingredient(key: Seq<(char, Ingredient)>, c: char, from: int)
    requires
        0 <= from <= key.len(),
        forall|j: int| 0 <= j < from ==> (#[trigger] key[j]).0 != c,
    ensures
        find_ingredient(key, c, from) matches Some(ingredient) ==> exists|k: int| #[trigger]
            counts_for(key, c, k) && ingredient == key[k].1,
        find_ingredient(key, c, from) is None ==> forall|j: int|
            0 <= j < key.len() ==> (#[trigger] key[j]).0 != c,
    decreases key.len() - from,
{
    if from < key.len() {
        if key[from].0 == c {
            assert(counts_for(key, c, from));
        } else {
            lemma_find_ingredient(key, c, from + 1);
        }
    }
}

/// A key gives a character the ingredient of the first entry for it, and none if there is no entry.
pub proof fn law_key_gives_the_first_entry(key: Seq<(char, Ingredient)>, c: char)
    ensures
        forall|k: int| #[trigger]
            counts_for(key, c, k) ==> find_ingredient(key, c, 0) == Some(key[k].1),
        find_ingredient(key, c, 0) is None <==> forall|j: int|
            0 <= j < key.len() ==> (#[trigger] key[j]).0 != c,
{
    lemma_find_ingredient(key, c, 0);
    assert forall|k: int| #[trigger] counts_for(key, c, k) implies find_ingredient(key, c, 0)
        == Some(key[k].1) by {
        assert(key[k].0 == c);
        let ingredient = find_ingredient(key, c, 0).unwrap();
        let other = choose|other: int| #[trigger]
            counts_for(key, c, other) && ingredient == key[other].1;
        if other < k {
            assert(key[other].0 != c);
        } else if k < other {
            assert(key[k].0 != c);
        }
    }
    if find_ingredient(key, c, 0) is Some {
        let k = choose|k: int| #[trigger] counts_for(key, c, k);
        assert(key[k].0 == c);
    }
}

pub proof fn lemma_key_names(key: Seq<(char, Ingredient)>, c: char, item: Seq<char>)
    ensures
        key_names(key, c, item) <==> find_ingredient(key, c, 0) is Some && find_ingredient(
            key,
            c,
            0,
        ).unwrap().accepts(item),
{
    law_key_gives_the_first_entry(key, c);
    lemma_find_ingredient(key, c, 0);
}

/// A cell of a pattern that has a cell of the grid beneath it fits in just these cases: it is a
/// blank over nothing, or its ingredient names the item in the cell beneath it, in whatever place
/// of its list.
pub proof fn law_cell_fits_any_named_item(
    key: Seq<(char, Ingredient)>,
    pattern: Seq<&'static str>,
    p: Placement,
    y: int,
    x: int,
    mirrored: bool,
)
    requires
        0 <= y < pattern.len(),
        0 <= x < pattern[y]@.len(),
        0 <= p.column(x, mirrored),
        0 <= p.cell(y, x, mirrored) < p.grid.stacks.len(),
    ensures
        pattern[y]@[x] == ' ' ==> (cell_matches(key, pattern, p, y, x, mirrored) <==> !something(
            p.grid.stacks[p.cell(y, x, mirrored)],
        )),
        pattern[y]@[x] != ' ' ==> (cell_matches(key, pattern, p, y, x, mirrored) <==> key_names(
            key,
            pattern[y]@[x],
            p.grid.stacks[p.cell(y, x, mirrored)].item@,
        )),
{
    lemma_key_names(key, pattern[y]@[x], p.grid.stacks[p.cell(y, x, mirrored)].item@);
}

/// The stack in column `x` of row `y`.
pub open spec fn stack_at(grid: Grid, y: int, x: int) -> ItemStack {
    grid.stacks[y * grid.width + x]
}

/// All rows of a pattern are equally long, and each of their characters takes one byte.
pub open spec fn even_rows(pattern: Seq<&'static str>) -> bool {
    forall|y: int|
        0 <= y < pattern.len() ==> (#[trigger] pattern[y])@.len() == pattern[0]@.len()
            && pattern[y].len() == pattern[y]@.len()
}

/// A pattern has ingredients in its first and last row and in its first and last column, so that
/// its ingredients take up all of its height and width.
pub open spec fn reaches_its_edges(pattern: Seq<&'static str>) -> bool {
    let height = pattern.len() as int;
    let width = pattern[0]@.len() as int;
    &&& height > 0
    &&& exists|x: int| 0 <= x < width && #[trigger] pattern[0]@[x] != ' '
    &&& exists|x: int| 0 <= x < width && #[trigger] pattern[height - 1]@[x] != ' '
    &&& exists|y: int| 0 <= y < height && (#[trigger] pattern[y])@[0] != ' '
    &&& exists|y: int| 0 <= y < height && (#[trigger] pattern[y])@[width - 1] != ' '
}

/// The character in column `x` of row `y` of a pattern, or of its mirror image; a blank beside the
/// pattern.
pub open spec fn character(pattern: Seq<&'static str>, mirrored: bool, y: int, x: int) -> char {
    if 0 <= y < pattern.len() && 0 <= x < pattern[y]@.len() {
        if mirrored {
            pattern[y]@[pattern[y]@.len() - 1 - x]
        } else {
            pattern[y]@[x]
        }
    } else {
        ' '
    }
}

/// What a pattern asks for at one place: nothing, for a blank, and else a stack of an item that the
/// ingredient of the character names.
pub open spec fn wanted(key: Seq<(char, Ingredient)>, c: char, stack: ItemStack) -> bool {
    if c == ' ' {
        !something(stack)
    } else {
        something(stack) && key_names(key, c, stack.item@)
    }
}

/// The stacks of the whole grid are laid out as the pattern shows them, with the pattern's first
/// character in column `left` of row `top`.
pub open spec fn laid_out(
    key: Seq<(char, Ingredient)>,
    pattern: Seq<&'static str>,
    grid: Grid,
    mirrored: bool,
    top: int,
    left: int,
) -> bool {
    &&& 0 <= top
    &&& top + pattern.len() <= grid.height
    &&& 0 <= left
    &&& left + pattern[0]@.len() <= grid.width
    &&& forall|y: int, x: int|
        0 <= y < grid.height && 0 <= x < grid.width ==> wanted(
            key,
            character(pattern, mirrored, y - top, x - left),
            #[trigger] stack_at(grid, y, x),
        )
}

/// There is something in the grid.
pub open spec fn holds_something(grid: Grid) -> bool {
    exists|i: int| 0 <= i < grid.stacks.len() && something(#[trigger] grid.stacks[i])
}

pub proof fn lemma_holds_something(grid: Grid)
    ensures
        holds_something(grid) <==> full_extent(grid).count > 0,
        !holds_something(grid) <==> full_extent(grid).count == 0,
{
    let n = grid.stacks.len() as int;
    let occupied = occupied_cells(grid, n);
    law_extent_counts_stacks(grid, n);
    if holds_something(grid) {
        let i = choose|i: int| 0 <= i < grid.stacks.len() && something(#[trigger] grid.stacks[i]);
        assert(occupied.contains(i));
        if occupied.len() == 0 {
            assert(occupied =~= Set::empty());
        }
    } else {
        assert forall|i: int| !occupied.contains(i) by {
            if occupied.contains(i) {
                assert(something(grid.stacks[i]));
            }
        }
        assert(occupied =~= Set::empty());
    }
}

proof fn lemma_even_rows(pattern: Seq<&'static str>)
    requires
        even_rows(pattern),
    ensures
        rectangular(pattern),
{
}

/// The place in the pattern of what lies over a place of the grid.
spec fn pattern_column(width: int, mirrored: bool, x: int) -> int {
    if mirrored {
        width - 1 - x
    } else {
        x
    }
}

/// A pattern that fits the occupied area shows how the stacks are laid out.
proof fn lemma_match_is_laid_out(
    key: Seq<(char, Ingredient)>,
    pattern: Seq<&'static str>,
    grid: Grid,
    mirrored: bool,
)
    requires
        grid.wf(),
        holds_something(grid),
        even_rows(pattern),
        pattern_fits(pattern, occupied_area(grid)),
        pattern_matches(key, pattern, occupied_area(grid).placement(grid), mirrored),
    ensures
        reaches_its_edges(pattern),
        laid_out(
            key,
            pattern,
            grid,
            mirrored,
            occupied_area(grid).top_y,
            occupied_area(grid).top_x,
        ),
{
    let area = occupied_area(grid);
    let e = full_extent(grid);
    let p = area.placement(grid);
    let n = grid.stacks.len() as int;
    let w = area.input_width;
    lemma_holds_something(grid);
    lemma_even_rows(pattern);
    law_extent_is_tight(grid, n);
    law_shaped_match_uses_each_stack(key, pattern, grid, mirrored);
    assert(pattern[0].len() == w);
    // Over each cell that holds something lies an ingredient.
    assert forall|i: int| 0 <= i < n && #[trigger] grid.occupied(i) implies {
        let y = i / grid.width - area.top_y;
        let x = pattern_column(w, mirrored, i % grid.width - area.top_x);
        in_pattern(pattern, y, x) && pattern[y]@[x] != ' '
    } by {
        lemma_place(grid, i);
        let y = i / grid.width - area.top_y;
        let x = pattern_column(w, mirrored, i % grid.width - area.top_x);
        assert(pattern[y].len() == w);
        assert(p.cell(y, x, mirrored) == i);
        assert(pattern[y]@[x] != ' ' <==> grid.occupied(p.cell(y, x, mirrored)));
    }
    assert(reaches_its_edges(pattern)) by {
        let left = choose|i: int|
            0 <= i < n && #[trigger] grid.occupied(i) && i % grid.width == e.top_x;
        let top = choose|i: int|
            0 <= i < n && #[trigger] grid.occupied(i) && i / grid.width == e.top_y;
        let right = choose|i: int|
            0 <= i < n && #[trigger] grid.occupied(i) && i % grid.width == e.bottom_x;
        let bottom = choose|i: int|
            0 <= i < n && #[trigger] grid.occupied(i) && i / grid.width == e.bottom_y;
        assert(grid.occupied(left) && grid.occupied(top) && grid.occupied(right) && grid.occupied(
            bottom,
        ));
        let height = pattern.len() as int;
        let x1 = pattern_column(w, mirrored, top % grid.width - area.top_x);
        assert(pattern[0]@[x1] != ' ');
        let x2 = pattern_column(w, mirrored, bottom % grid.width - area.top_x);
        assert(pattern[height - 1]@[x2] != ' ');
        let y1 = left / grid.width - area.top_y;
        let y2 = right / grid.width - area.top_y;
        assert(pattern[y1].len() == w && pattern[y2].len() == w);
        if mirrored {
            assert(pattern[y1]@[w - 1] != ' ');
            assert(pattern[y2]@[0] != ' ');
        } else {
            assert(pattern[y1]@[0] != ' ');
            assert(pattern[y2]@[w - 1] != ' ');
        }
    }
    assert forall|y: int, x: int| 0 <= y < grid.height && 0 <= x < grid.width implies wanted(
        key,
        character(pattern, mirrored, y - area.top_y, x - area.top_x),
        #[trigger] stack_at(grid, y, x),
    ) by {
        let i = y * grid.width + x;
        lemma_cell(grid, y, x);
        assert(grid.occupied(i) <==> something(grid.stacks[i]));
        let py = y - area.top_y;
        let px = pattern_column(w, mirrored, x - area.top_x);
        if 0 <= py < pattern.len() && 0 <= px < w {
            assert(pattern[py].len() == w);
            assert(in_pattern(pattern, py, px));
            assert(p.cell(py, px, mirrored) == i);
            assert(cell_matches(key, pattern, p, py, px, mirrored));
            assert(pattern[py]@[px] != ' ' <==> grid.occupied(i));
            lemma_key_names(key, pattern[py]@[px], grid.stacks[i].item@);
        } else if grid.occupied(i) {
            assert(in_pattern(pattern, py, px));
            assert(pattern[py].len() == w);
        } else if 0 <= py < pattern.len() {
            assert(pattern[py].len() == w);
        }
    }
}

/// Stacks that are laid out as a pattern shows them take up the area that the pattern is held
/// against.
proof fn lemma_laid_out_area(
    key: Seq<(char, Ingredient)>,
    pattern: Seq<&'static str>,
    grid: Grid,
    mirrored: bool,
    top: int,
    left: int,
)
    requires
        grid.wf(),
        holds_something(grid),
        even_rows(pattern),
        reaches_its_edges(pattern),
        laid_out(key, pattern, grid, mirrored, top, left),
    ensures
        occupied_area(grid).top_y == top,
        occupied_area(grid).top_x == left,
        occupied_area(grid).input_height == pattern.len(),
        occupied_area(grid).input_width == pattern[0]@.len(),
{
    let e = full_extent(grid);
    let n = grid.stacks.len() as int;
    let w = pattern[0]@.len() as int;
    let height = pattern.len() as int;
    lemma_holds_something(grid);
    law_extent_is_tight(grid, n);
    assert forall|i: int| 0 <= i < n && #[trigger] grid.occupied(i) implies {
        &&& top <= i / grid.width < top + height
        &&& left <= i % grid.width < left + w
    } by {
        lemma_place(grid, i);
        let y = i / grid.width;
        let x = i % grid.width;
        assert(stack_at(grid, y, x) == grid.stacks[i]);
        assert(wanted(key, character(pattern, mirrored, y - top, x - left), stack_at(grid, y, x)));
        if 0 <= y - top < height {
            assert(pattern[y - top]@.len() == w);
        }
    }
    let x1 = choose|x: int| 0 <= x < w && #[trigger] pattern[0]@[x] != ' ';
    lemma_ingredient_is_there(key, pattern, grid, mirrored, top, left, 0, x1);
    let x2 = choose|x: int| 0 <= x < w && #[trigger] pattern[height - 1]@[x] != ' ';
    lemma_ingredient_is_there(key, pattern, grid, mirrored, top, left, height - 1, x2);
    let y1 = choose|y: int| 0 <= y < height && (#[trigger] pattern[y])@[0] != ' ';
    lemma_ingredient_is_there(key, pattern, grid, mirrored, top, left, y1, 0);
    let y2 = choose|y: int| 0 <= y < height && (#[trigger] pattern[y])@[w - 1] != ' ';
    lemma_ingredient_is_there(key, pattern, grid, mirrored, top, left, y2, w - 1);
}

/// Under each ingredient of a layout lies a stack.
proof fn lemma_ingredient_is_there(
    key: Seq<(char, Ingredient)>,
    pattern: Seq<&'static str>,
    grid: Grid,
    mirrored: bool,
    top: int,
    left: int,
    y: int,
    x: int,
)
    requires
        grid.wf(),
        even_rows(pattern),
        laid_out(key, pattern, grid, mirrored, top, left),
        0 <= y < pattern.len(),
        0 <= x < pattern[0]@.len(),
    ensures
        ({
            let column = left + pattern_column(pattern[0]@.len() as int, mirrored, x);
            let i = (top + y) * grid.width + column;
            &&& 0 <= i < grid.stacks.len()
            &&& i / grid.width == top + y
            &&& i % grid.width == column
            &&& wanted(key, pattern[y]@[x], grid.stacks[i])
            &&& grid.occupied(i) <==> pattern[y]@[x] != ' '
        }),
{
    let w = pattern[0]@.len() as int;
    let column = left + pattern_column(w, mirrored, x);
    let i = (top + y) * grid.width + column;
    assert(pattern[y]@.len() == w);
    lemma_cell(grid, top + y, column);
    assert(stack_at(grid, top + y, column) == grid.stacks[i]);
    assert(character(pattern, mirrored, y, column - left) == pattern[y]@[x]);
    assert(top + y - top == y);
    assert(wanted(
        key,
        character(pattern, mirrored, top + y - top, column - left),
        stack_at(grid, top + y, column),
    ));
}

/// A pattern that shows how the stacks are laid out fits the occupied area.
proof fn lemma_laid_out_is_match(
    key: Seq<(char, Ingredient)>,
    pattern: Seq<&'static str>,
    grid: Grid,
    mirrored: bool,
    top: int,
    left: int,
)
    requires
        grid.wf(),
        holds_something(grid),
        even_rows(pattern),
        reaches_its_edges(pattern),
        laid_out(key, pattern, grid, mirrored, top, left),
    ensures
        pattern_fits(pattern, occupied_area(grid)),
        pattern_matches(key, pattern, occupied_area(grid).placement(grid), mirrored),
{
    let area = occupied_area(grid);
    let p = area.placement(grid);
    let w = pattern[0]@.len() as int;
    lemma_laid_out_area(key, pattern, grid, mirrored, top, left);
    lemma_even_rows(pattern);
    assert(pattern[0].len() == w);
    assert forall|y: int, x: int|
        0 <= y < pattern.len() && 0 <= x < pattern[y]@.len() && pattern[y]@[x] != ' ' implies {
        let c = #[trigger] p.cell(y, x, mirrored);
        0 <= c < p.grid.stacks.len() && p.grid.occupied(c)
    } by {
        assert(pattern[y]@.len() == w);
        lemma_ingredient_is_there(key, pattern, grid, mirrored, top, left, y, x);
    }
    assert forall|c: int| 0 <= c < p.grid.stacks.len() && #[trigger] p.grid.occupied(c) implies
        exists|y: int, x: int|
        0 <= y < pattern.len() && 0 <= x < pattern[y]@.len() && pattern[y]@[x] != ' ' && c
            == #[trigger] p.cell(y, x, mirrored) by {
        lemma_place(grid, c);
        let row = c / grid.width;
        let column = c % grid.width;
        assert(stack_at(grid, row, column) == grid.stacks[c]);
        assert(wanted(
            key,
            character(pattern, mirrored, row - top, column - left),
            stack_at(grid, row, column),
        ));
        let y = row - top;
        let x = pattern_column(w, mirrored, column - left);
        assert(0 <= y < pattern.len());
        assert(pattern[y]@.len() == w);
        assert(p.cell(y, x, mirrored) == c);
    }
    lemma_covered_stacks_are_counted(pattern, p, mirrored);
    assert forall|y: int, x: int| in_pattern(pattern, y, x) implies #[trigger] cell_matches(
        key,
        pattern,
        p,
        y,
        x,
        mirrored,
    ) by {
        assert(pattern[y]@.len() == w && pattern[y].len() == w);
        lemma_ingredient_is_there(key, pattern, grid, mirrored, top, left, y, x);
        let i = p.cell(y, x, mirrored);
        lemma_key_names(key, pattern[y]@[x], grid.stacks[i].item@);
    }
}

/// What a shaped recipe makes: its result, if somewhere in the grid the stacks are laid out as its
/// pattern or the mirror image of its pattern shows them, and nothing else lies in the grid.
pub open spec fn shaped_makes(
    key: Seq<(char, Ingredient)>,
    pattern: Seq<&'static str>,
    grid: Grid,
) -> bool {
    &&& reaches_its_edges(pattern)
    &&& exists|mirrored: bool, top: int, left: int| #[trigger]
        laid_out(key, pattern, grid, mirrored, top, left)
}

proof fn lemma_shaped_makes(key: Seq<(char, Ingredient)>, pattern: Seq<&'static str>, grid: Grid)
    requires
        grid.wf(),
        holds_something(grid),
        even_rows(pattern),
    ensures
        shaped_matches(key, pattern, occupied_area(grid), grid) <==> shaped_makes(
            key,
            pattern,
            grid,
        ),
{
    let area = occupied_area(grid);
    lemma_even_rows(pattern);
    if shaped_matches(key, pattern, area, grid) {
        if pattern_matches(key, pattern, area.placement(grid), false) {
            lemma_match_is_laid_out(key, pattern, grid, false);
            assert(laid_out(key, pattern, grid, false, area.top_y, area.top_x));
        } else {
            lemma_match_is_laid_out(key, pattern, grid, true);
            assert(laid_out(key, pattern, grid, true, area.top_y, area.top_x));
        }
    }
    if shaped_makes(key, pattern, grid) {
        let (mirrored, top, left) = choose|mirrored: bool, top: int, left: int| #[trigger]
            laid_out(key, pattern, grid, mirrored, top, left);
        lemma_laid_out_is_match(key, pattern, grid, mirrored, top, left);
        law_shaped_matches_either_way(key, pattern, area, grid);
    }
}

/// A shaped recipe yields its result if and only if somewhere in the grid the stacks are laid out
/// as its pattern or the mirror image of its pattern shows them, each of any item that the
/// ingredient of its place names, and nothing else lies in the grid.
pub proof fn law_shaped_recipe(book: RecipeBook, grid: Grid, i: int)
    requires
        grid.wf(),
        holds_something(grid),
        book.recipes@[i] is CraftingShaped,
        even_rows(book.recipes@[i]->pattern@),
    ensures
        ({
            let recipe = book.recipes@[i];
            &&& nth_result(book, grid, i) is Some <==> shaped_makes(
                recipe->key@,
                recipe->pattern@,
                grid,
            )
            &&& nth_result(book, grid, i) matches Some(result) ==> result
                == recipe->CraftingShaped_result
        }),
{
    let recipe = book.recipes@[i];
    lemma_shaped_makes(recipe->key@, recipe->pattern@, grid);
}

/// Ingredient `k` names the item of stack `i`, and no stack before it has that ingredient.
pub open spec fn is_free_for(
    grid: Grid,
    ingredients: Seq<Ingredient>,
    pairs: Seq<int>,
    i: int,
    k: int,
) -> bool {
    &&& 0 <= k < ingredients.len()
    &&& listed(ingredients[k].items@, grid.stacks[i].item@)
    &&& forall|j: int| 0 <= j < i && something(#[trigger] grid.stacks[j]) ==> pairs[j] != k
}

/// Each stack, one after the other, has the first ingredient that is free for it.
pub open spec fn served_in_order(
    grid: Grid,
    ingredients: Seq<Ingredient>,
    pairs: Seq<int>,
) -> bool {
    &&& pairs.len() == grid.stacks.len()
    &&& forall|i: int|
        0 <= i < grid.stacks.len() && something(#[trigger] grid.stacks[i]) ==> {
            &&& is_free_for(grid, ingredients, pairs, i, pairs[i])
            &&& forall|k: int|
                k < pairs[i] ==> !#[trigger] is_free_for(grid, ingredients, pairs, i, k)
        }
}

/// Some stack has ingredient `k`.
pub open spec fn is_served(grid: Grid, pairs: Seq<int>, k: int) -> bool {
    exists|i: int|
        0 <= i < grid.stacks.len() && something(#[trigger] grid.stacks[i]) && pairs[i] == k
}

/// What a shapeless recipe makes: its result, if each stack, one after the other, finds an
/// ingredient that names its item and that no stack before it has, where it takes the first of
/// these, and no ingredient is left over.
pub open spec fn shapeless_makes(ingredients: Seq<Ingredient>, grid: Grid) -> bool {
    exists|pairs: Seq<int>| #[trigger]
        served_in_order(grid, ingredients, pairs) && (forall|k: int|
            0 <= k < ingredients.len() ==> #[trigger] is_served(grid, pairs, k))
}

proof fn lemma_served_stacks_are_assigned(
    grid: Grid,
    ingredients: Seq<Ingredient>,
    pairs: Seq<int>,
    n: int,
)
    requires
        served_in_order(grid, ingredients, pairs),
        0 <= n <= grid.stacks.len(),
    ensures
        assign_ingredients(grid.stacks, ingredients, n) is Some,
        ({
            let used = assign_ingredients(grid.stacks, ingredients, n).unwrap();
            &&& used.len() == ingredients.len()
            &&& forall|k: int|
                0 <= k < used.len() ==> (#[trigger] used[k] <==> exists|j: int|
                    0 <= j < n && something(#[trigger] grid.stacks[j]) && pairs[j] == k)
        }),
    decreases n,
{
    if n > 0 {
        let i = n - 1;
        lemma_served_stacks_are_assigned(grid, ingredients, pairs, i);
        let before = assign_ingredients(grid.stacks, ingredients, i).unwrap();
        let stack = grid.stacks[i];
        if something(stack) {
            let k = first_unused(ingredients, before, stack.item@, 0);
            lemma_first_unused(ingredients, before, stack.item@, 0);
            assert(is_free_for(grid, ingredients, pairs, i, pairs[i]));
            assert(!before[pairs[i]]);
            assert(ingredients[pairs[i]].accepts(stack.item@));
            if k < pairs[i] {
                assert(is_free_for(grid, ingredients, pairs, i, k));
            }
            assert(k == pairs[i]);
            let used = before.update(k, true);
            assert forall|k2: int| 0 <= k2 < used.len() implies (#[trigger] used[k2] <==> exists|
                j: int,
            |
                0 <= j < n && something(#[trigger] grid.stacks[j]) && pairs[j] == k2) by {
                if k2 == k {
                    assert(something(grid.stacks[i]) && pairs[i] == k2);
                } else if before[k2] {
                    let j = choose|j: int|
                        0 <= j < i && something(#[trigger] grid.stacks[j]) && pairs[j] == k2;
                    assert(something(grid.stacks[j]));
                }
            }
        } else {
            assert forall|k2: int| 0 <= k2 < before.len() implies (#[trigger] before[k2]
                <==> exists|j: int|
                0 <= j < n && something(#[trigger] grid.stacks[j]) && pairs[j] == k2) by {
                if before[k2] {
                    let j = choose|j: int|
                        0 <= j < i && something(#[trigger] grid.stacks[j]) && pairs[j] == k2;
                    assert(something(grid.stacks[j]));
                }
            }
        }
    }
}

proof fn lemma_shapeless_makes(ingredients: Seq<Ingredient>, grid: Grid)
    ensures
        shapeless_matches(ingredients, occupied_area(grid), grid) <==> shapeless_makes(
            ingredients,
            grid,
        ),
{
    let n = grid.stacks.len() as int;
    if shapeless_matches(ingredients, occupied_area(grid), grid) {
        let pairs = Seq::new(n as nat, |j: int| partner(grid.stacks, ingredients, j));
        law_shapeless_match_is_a_pairing(ingredients, grid);
        assert forall|j: int| 0 <= j < n && something(#[trigger] grid.stacks[j]) implies {
            &&& is_free_for(grid, ingredients, pairs, j, pairs[j])
            &&& forall|k: int|
                k < pairs[j] ==> !#[trigger] is_free_for(grid, ingredients, pairs, j, k)
        } by {
            assert(grid.occupied(j));
            assert forall|j2: int| 0 <= j2 < j && something(#[trigger] grid.stacks[j2]) implies
                pairs[j2] != pairs[j] by {
                assert(grid.occupied(j2));
            }
            lemma_assigned_before(grid.stacks, ingredients, j, n);
            lemma_used_by_partners(grid, ingredients, j);
            let used = assign_ingredients(grid.stacks, ingredients, j).unwrap();
            lemma_first_unused(ingredients, used, grid.stacks[j].item@, 0);
            assert forall|k: int| k < pairs[j] implies !#[trigger] is_free_for(
                grid,
                ingredients,
                pairs,
                j,
                k,
            ) by {
                if 0 <= k && used[k] {
                    let j2 = choose|j2: int|
                        0 <= j2 < j && #[trigger] grid.occupied(j2) && partner(
                            grid.stacks,
                            ingredients,
                            j2,
                        ) == k;
                    assert(something(grid.stacks[j2]) && pairs[j2] == k);
                } else if 0 <= k {
                    assert(!ingredients[k].accepts(grid.stacks[j].item@));
                }
            }
        }
        assert forall|k: int| 0 <= k < ingredients.len() implies #[trigger] is_served(
            grid,
            pairs,
            k,
        ) by {
            assert(is_taken(grid, ingredients, k));
            let j = choose|j: int|
                0 <= j < n && #[trigger] grid.occupied(j) && partner(grid.stacks, ingredients, j)
                    == k;
            assert(something(grid.stacks[j]) && pairs[j] == k);
        }
        assert(served_in_order(grid, ingredients, pairs));
    }
    if shapeless_makes(ingredients, grid) {
        let pairs = choose|pairs: Seq<int>| #[trigger]
            served_in_order(grid, ingredients, pairs) && (forall|k: int|
                0 <= k < ingredients.len() ==> #[trigger] is_served(grid, pairs, k));
        lemma_served_stacks_are_assigned(grid, ingredients, pairs, n);
        lemma_used_by_partners(grid, ingredients, n);
        let used = assign_ingredients(grid.stacks, ingredients, n).unwrap();
        let all = set_int_range(0, ingredients.len() as int);
        lemma_int_range(0, ingredients.len() as int);
        assert(used_set(used) =~= all) by {
            assert forall|k: int| all.contains(k) implies used_set(used).contains(k) by {
                assert(is_served(grid, pairs, k));
                assert(used[k]);
            }
        }
    }
}

/// A shapeless recipe yields its result if and only if each stack, one after the other, finds an
/// ingredient that names its item and that no stack before it has, where it takes the first of
/// these, and no ingredient is left over.
pub proof fn law_shapeless_recipe(book: RecipeBook, grid: Grid, i: int)
    requires
        book.recipes@[i] is CraftingShapeless,
    ensures
        ({
            let recipe = book.recipes@[i];
            &&& nth_result(book, grid, i) is Some <==> shapeless_makes(recipe->ingredients@, grid)
            &&& nth_result(book, grid, i) matches Some(result) ==> result
                == recipe->CraftingShapeless_result
        }),
{
    let recipe = book.recipes@[i];
    lemma_shapeless_makes(recipe->ingredients@, grid);
}

/// The cells `i` and `j` hold something, and no other cell does.
pub open spec fn only_two(grid: Grid, i: int, j: int) -> bool {
    &&& 0 <= i < j < grid.stacks.len()
    &&& forall|k: int|
        0 <= k < grid.stacks.len() ==> (something(#[trigger] grid.stacks[k]) <==> k == i || k == j)
}

/// What a transmutation makes: its result, if the grid holds two stacks, in whatever cells, and
/// each is named by the input or by the material.
pub open spec fn transmute_makes(input: Ingredient, material: Ingredient, grid: Grid) -> bool {
    exists|i: int, j: int|
        {
            &&& #[trigger] only_two(grid, i, j)
            &&& listed(input.items@, grid.stacks[i].item@) || listed(
                material.items@,
                grid.stacks[i].item@,
            )
            &&& listed(input.items@, grid.stacks[j].item@) || listed(
                material.items@,
                grid.stacks[j].item@,
            )
        }
}

proof fn lemma_two_stacks(grid: Grid)
    requires
        full_extent(grid).count == 2,
    ensures
        exists|i: int, j: int| only_two(grid, i, j),
{
    let n = grid.stacks.len() as int;
    let occupied = occupied_cells(grid, n);
    law_extent_counts_stacks(grid, n);
    let a = occupied.choose();
    let rest = occupied.remove(a);
    let b = rest.choose();
    assert(occupied.contains(a) && rest.contains(b));
    let two = set![a, b];
    assert(two.len() == 2);
    assert(two.subset_of(occupied));
    lemma_subset_equality(two, occupied);
    let (i, j) = if a < b {
        (a, b)
    } else {
        (b, a)
    };
    assert forall|k: int| 0 <= k < grid.stacks.len() implies (something(#[trigger] grid.stacks[k])
        <==> k == i || k == j) by {
        assert(occupied.contains(k) <==> two.contains(k));
    }
    assert(only_two(grid, i, j));
}

proof fn lemma_only_two_are_counted(grid: Grid, i: int, j: int)
    requires
        only_two(grid, i, j),
    ensures
        full_extent(grid).count == 2,
{
    let n = grid.stacks.len() as int;
    law_extent_counts_stacks(grid, n);
    assert(occupied_cells(grid, n) =~= set![i, j]) by {
        assert forall|k: int| occupied_cells(grid, n).contains(k) <==> set![i, j].contains(k) by {
            if 0 <= k < n {
                assert(something(grid.stacks[k]) <==> k == i || k == j);
            }
        }
    }
}

proof fn lemma_transmute_makes(input: Ingredient, material: Ingredient, grid: Grid)
    ensures
        transmute_matches(input, material, occupied_area(grid), grid) <==> transmute_makes(
            input,
            material,
            grid,
        ),
{
    if transmute_matches(input, material, occupied_area(grid), grid) {
        lemma_two_stacks(grid);
        let (j, k) = choose|j: int, k: int| only_two(grid, j, k);
        assert(something(grid.stacks[j]) && something(grid.stacks[k]));
        assert(grid.occupied(j) && grid.occupied(k));
    }
    if transmute_makes(input, material, grid) {
        let (j, k) = choose|j: int, k: int|
            {
                &&& #[trigger] only_two(grid, j, k)
                &&& listed(input.items@, grid.stacks[j].item@) || listed(
                    material.items@,
                    grid.stacks[j].item@,
                )
                &&& listed(input.items@, grid.stacks[k].item@) || listed(
                    material.items@,
                    grid.stacks[k].item@,
                )
            };
        lemma_only_two_are_counted(grid, j, k);
        assert forall|l: int| 0 <= l < grid.stacks.len() && #[trigger] grid.occupied(l) implies
            material.accepts(grid.stacks[l].item@) || input.accepts(grid.stacks[l].item@) by {
            assert(something(grid.stacks[l]));
        }
    }
}

/// A transmutation yields its result if and only if exactly two cells of the grid hold something,
/// and each of the two holds an item that the input or the material names. In which cells they lie
/// has no part in it.
pub proof fn law_transmute_recipe(book: RecipeBook, grid: Grid, i: int)
    requires
        book.recipes@[i] is CraftingTransmute,
    ensures
        ({
            let recipe = book.recipes@[i];
            &&& nth_result(book, grid, i) is Some <==> transmute_makes(
                recipe->input,
                recipe->material,
                grid,
            )
            &&& nth_result(book, grid, i) matches Some(result) ==> result
                == recipe->CraftingTransmute_result
        }),
{
    let recipe = book.recipes@[i];
    lemma_transmute_makes(recipe->input, recipe->material, grid);
}

/// Grid `b` holds the stacks of grid `a`, each in cell `places[i]` in place of cell `i`.
pub open spec fn rearranged(a: Grid, b: Grid, places: Seq<int>, origins: Seq<int>) -> bool {
    &&& a.stacks.len() == b.stacks.len()
    &&& places.len() == a.stacks.len()
    &&& origins.len() == a.stacks.len()
    &&& forall|i: int|
        0 <= i < places.len() ==> 0 <= #[trigger] places[i] < origins.len() && origins[places[i]]
            == i && b.stacks[places[i]] == a.stacks[i]
    &&& forall|j: int|
        0 <= j < origins.len() ==> 0 <= #[trigger] origins[j] < places.len() && places[origins[j]]
            == j
}

proof fn lemma_rearranged_transmutation(
    input: Ingredient,
    material: Ingredient,
    a: Grid,
    b: Grid,
    places: Seq<int>,
    origins: Seq<int>,
)
    requires
        rearranged(a, b, places, origins),
        transmute_makes(input, material, a),
    ensures
        transmute_makes(input, material, b),
{
    let (i, j) = choose|i: int, j: int|
        {
            &&& #[trigger] only_two(a, i, j)
            &&& listed(input.items@, a.stacks[i].item@) || listed(
                material.items@,
                a.stacks[i].item@,
            )
            &&& listed(input.items@, a.stacks[j].item@) || listed(
                material.items@,
                a.stacks[j].item@,
            )
        };
    let (k, l) = if places[i] < places[j] {
        (places[i], places[j])
    } else {
        (places[j], places[i])
    };
    assert(origins[places[i]] == i && origins[places[j]] == j);
    assert forall|m: int| 0 <= m < b.stacks.len() implies (something(#[trigger] b.stacks[m]) <==> m
        == k || m == l) by {
        let origin = origins[m];
        assert(places[origin] == m);
        assert(something(a.stacks[origin]) <==> origin == i || origin == j);
    }
    assert(only_two(b, k, l));
}

/// A transmutation yields the same however the stacks are rearranged over the cells of the grid.
pub proof fn law_transmute_in_any_cells(
    book: RecipeBook,
    i: int,
    a: Grid,
    b: Grid,
    places: Seq<int>,
    origins: Seq<int>,
)
    requires
        book.recipes@[i] is CraftingTransmute,
        rearranged(a, b, places, origins),
    ensures
        nth_result(book, a, i) == nth_result(book, b, i),
{
    let input = book.recipes@[i]->input;
    let material = book.recipes@[i]->material;
    law_transmute_recipe(book, a, i);
    law_transmute_recipe(book, b, i);
    if transmute_makes(input, material, a) {
        lemma_rearranged_transmutation(input, material, a, b, places, origins);
    }
    if transmute_makes(input, material, b) {
        assert(rearranged(b, a, origins, places)) by {
            assert forall|j: int| 0 <= j < origins.len() implies 0 <= #[trigger] origins[j]
                < places.len() && places[origins[j]] == j && a.stacks[origins[j]]
                == b.stacks[j] by {
                assert(b.stacks[places[origins[j]]] == a.stacks[origins[j]]);
            }
        }
        lemma_rearranged_transmutation(input, material, b, a, origins, places);
    }
}

/// What a decorated pot is made of: four stacks in a grid of three by three cells, one in the
/// middle of each side, each of any pot ingredient, and nothing else.
pub open spec fn pot_makes(pot_ingredients: Seq<&'static str>, grid: Grid) -> bool {
    &&& grid.width == 3
    &&& grid.height == 3
    &&& forall|i: int|
        0 <= i < 9 ==> if i % 2 == 1 {
            something(#[trigger] grid.stacks[i]) && listed(pot_ingredients, grid.stacks[i].item@)
        } else {
            !something(grid.stacks[i])
        }
}

proof fn lemma_pot_makes(pots: Seq<&'static str>, grid: Grid)
    requires
        grid.wf(),
    ensures
        pot_matches(pots, occupied_area(grid), grid) <==> pot_makes(pots, grid),
{
    let n = grid.stacks.len() as int;
    if pot_matches(pots, occupied_area(grid), grid) {
        law_pot_uses_each_stack(pots, grid);
        assert forall|j: int| 0 <= j < 9 implies if j % 2 == 1 {
            something(#[trigger] grid.stacks[j]) && listed(pots, grid.stacks[j].item@)
        } else {
            !something(grid.stacks[j])
        } by {
            assert(grid.occupied(j) <==> j == 1 || j == 3 || j == 5 || j == 7);
        }
    }
    if pot_makes(pots, grid) {
        law_extent_counts_stacks(grid, n);
        let four = set![1int, 3int, 5int, 7int];
        assert(occupied_cells(grid, n) =~= four) by {
            assert forall|j: int| occupied_cells(grid, n).contains(j) <==> four.contains(j) by {
                if 0 <= j < 9 {
                    assert(something(grid.stacks[j]) <==> j % 2 == 1);
                }
            }
        }
        assert(four.len() == 4);
        assert forall|j: int| j == 1 || j == 3 || j == 5 || j == 7 implies #[trigger] grid.occupied(
            j,
        ) && names_item(pots, grid.stacks[j].item@) by {
            assert(something(grid.stacks[j]));
        }
    }
}

/// A decorated pot comes of the four cells beside the centre of a grid of three by three cells, if
/// each holds some pot ingredient, alike or not, and no other cell holds anything; and of nothing
/// else.
pub proof fn law_pot_recipe(book: RecipeBook, grid: Grid, i: int)
    requires
        grid.wf(),
        book.recipes@[i] is CraftingDecoratedPot,
    ensures
        nth_result(book, grid, i) is Some <==> pot_makes(book.decorated_pot_ingredients@, grid),
        nth_result(book, grid, i) matches Some(result) ==> result.id@ == "minecraft:decorated_pot"@
            && result.count == 1,
{
    lemma_pot_makes(book.decorated_pot_ingredients@, grid);
}

/// What a recipe makes of a grid that holds something.
pub open spec fn made(
    recipe: CraftingRecipeTypes,
    pot_ingredients: Seq<&'static str>,
    grid: Grid,
) -> Option<RecipeResultStruct> {
    match recipe {
        CraftingRecipeTypes::CraftingShaped { key, pattern, result } => if shaped_makes(
            key@,
            pattern@,
            grid,
        ) {
            Some(result)
        } else {
            None
        },
        CraftingRecipeTypes::CraftingShapeless { ingredients, result } => if shapeless_makes(
            ingredients@,
            grid,
        ) {
            Some(result)
        } else {
            None
        },
        CraftingRecipeTypes::CraftingTransmute { input, material, result } => if transmute_makes(
            input,
            material,
            grid,
        ) {
            Some(result)
        } else {
            None
        },
        CraftingRecipeTypes::CraftingDecoratedPot => if pot_makes(pot_ingredients, grid) {
            Some(RecipeResultStruct { id: "minecraft:decorated_pot", count: 1 })
        } else {
            None
        },
        CraftingRecipeTypes::CraftingSpecial => None,
    }
}

/// All shaped recipes of a book have patterns with rows of one length.
pub open spec fn even_patterns(book: RecipeBook) -> bool {
    forall|i: int|
        0 <= i < book.recipes@.len() ==> (#[trigger] book.recipes@[i] matches
            CraftingRecipeTypes::CraftingShaped { pattern, .. } ==> even_rows(pattern@))
}

/// What recipe `i` of a book makes of a grid.
pub open spec fn made_by(book: RecipeBook, grid: Grid, i: int) -> Option<RecipeResultStruct> {
    made(book.recipes@[i], book.decorated_pot_ingredients@, grid)
}

/// A recipe that is held against the stacks of a grid yields what it makes of the grid.
pub proof fn law_recipe_makes(
    recipe: CraftingRecipeTypes,
    pot_ingredients: Seq<&'static str>,
    grid: Grid,
)
    requires
        grid.wf(),
        holds_something(grid),
        recipe matches CraftingRecipeTypes::CraftingShaped { pattern, .. } ==> even_rows(pattern@),
    ensures
        recipe_result(recipe, occupied_area(grid), grid, pot_ingredients) == made(
            recipe,
            pot_ingredients,
            grid,
        ),
{
    match recipe {
        CraftingRecipeTypes::CraftingShaped { key, pattern, .. } => {
            lemma_shaped_makes(key@, pattern@, grid);
        },
        CraftingRecipeTypes::CraftingShapeless { ingredients, .. } => {
            lemma_shapeless_makes(ingredients@, grid);
        },
        CraftingRecipeTypes::CraftingTransmute { input, material, .. } => {
            lemma_transmute_makes(input, material, grid);
        },
        CraftingRecipeTypes::CraftingDecoratedPot => {
            lemma_pot_makes(pot_ingredients, grid);
        },
        CraftingRecipeTypes::CraftingSpecial => {},
    }
}

/// Each recipe yields what it makes, and its own result at that.
pub proof fn law_recipe_yields_what_it_makes(book: RecipeBook, grid: Grid, i: int)
    requires
        grid.wf(),
        holds_something(grid),
        0 <= i < book.recipes@.len(),
        even_patterns(book),
    ensures
        nth_result(book, grid, i) == made_by(book, grid, i),
{
    law_recipe_makes(book.recipes@[i], book.decorated_pot_ingredients@, grid);
}

/// A search finds nothing in a grid that holds nothing. Else it finds the remembered recipe, if
/// that makes something of the grid; else the first recipe of the book that does, with what that
/// recipe makes; and it finds nothing only if no recipe of the book makes anything of the grid.
pub proof fn law_search_finds_what_can_be_made(
    book: RecipeBook,
    grid: Grid,
    cached: Option<usize>,
)
    requires
        grid.wf(),
        even_patterns(book),
        cached is Some ==> cached.unwrap() < book.recipes@.len(),
    ensures
        !holds_something(grid) ==> find_match(book, grid, cached) is None,
        find_match(book, grid, cached) matches Some((result, i)) ==> {
            &&& i < book.recipes@.len()
            &&& made_by(book, grid, i as int) == Some(result)
            &&& cached is Some && made_by(book, grid, cached.unwrap() as int) is Some ==> cached
                == Some(i)
            &&& cached is None || made_by(book, grid, cached.unwrap() as int) is None
                ==> forall|j: int| 0 <= j < i ==> #[trigger] made_by(book, grid, j) is None
        },
        holds_something(grid) && find_match(book, grid, cached) is None ==> forall|j: int|
            0 <= j < book.recipes@.len() ==> #[trigger] made_by(book, grid, j) is None,
{
    lemma_holds_something(grid);
    lemma_first_match(book, grid, 0);
    if holds_something(grid) {
        assert forall|i: int| 0 <= i < book.recipes@.len() implies #[trigger] made_by(
            book,
            grid,
            i,
        ) == nth_result(book, grid, i) by {
            law_recipe_yields_what_it_makes(book, grid, i);
        }
        assert forall|i: int| 0 <= i < book.recipes@.len() implies #[trigger] nth_result(
            book,
            grid,
            i,
        ) == made_by(book, grid, i) by {
            law_recipe_yields_what_it_makes(book, grid, i);
        }
    }
}

/// A slot that has been shown anew shows what the recipe makes that its search finds: of the item
/// and of the count that the recipe states. It shows the empty stack only if its grid holds nothing
/// or no recipe of its book makes anything of it.
pub proof fn law_slot_shows_what_can_be_made(slot: &ResultSlot, after: &ResultSlot)
    requires
        slot.wf(),
        even_patterns(slot.book()),
        slot.refilled(after),
    ensures
        ({
            let grid = slot.inventory@;
            let nothing = !holds_something(grid) || forall|j: int|
                0 <= j < slot.book().recipes@.len() ==> #[trigger] made_by(slot.book(), grid, j)
                    is None;
            &&& nothing ==> {
                &&& after.result.item_count == 0
                &&& after.result.item@ == "minecraft:air"@
                &&& after.cached() == slot.cached()
            }
            &&& !nothing ==> {
                &&& after.cached() matches Some(i) && i < slot.book().recipes@.len()
                &&& made_by(slot.book(), grid, after.cached().unwrap() as int) matches Some(result)
                    && result.id@ == after.result.item@ && result.count == after.result.item_count
            }
        }),
{
    law_search_finds_what_can_be_made(slot.book(), slot.inventory@, slot.cached());
}

} // verus!
