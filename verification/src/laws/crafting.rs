//! Laws on what a recipe depends on.
use crate::inventory::Grid;
use crate::laws::patterns::alike;
use crate::matching::{
    assign_ingredients, pot_matches, recipe_defined, recipe_result, transmute_matches,
};
use crate::pattern::{
    cell_defined, cell_matches, in_pattern, pattern_defined, pattern_matches, read_before,
    shaped_defined, shaped_matches, Area,
};
use crate::recipes::{names_item, CraftingRecipeTypes, Ingredient, RecipeBook};
use crate::search::{
    extent, find_match, first_match, full_extent, nth_defined, nth_result, occupied_area,
    search_defined,
};
use vstd::prelude::*;

verus! {

/// Two grids of one size that hold the same items in the same cells, though perhaps not as many.
pub open spec fn same_items(a: Grid, b: Grid) -> bool {
    &&& a.width == b.width
    &&& a.height == b.height
    &&& a.stacks.len() == b.stacks.len()
    &&& forall|i: int| 0 <= i < a.stacks.len() ==> alike(#[trigger] a.stacks[i], b.stacks[i])
}

proof fn lemma_same_extent(a: Grid, b: Grid, n: int)
    requires
        same_items(a, b),
        n <= a.stacks.len(),
    ensures
        extent(a, n) == extent(b, n),
    decreases n,
{
    if n > 0 {
        lemma_same_extent(a, b, n - 1);
        assert(alike(a.stacks[n - 1], b.stacks[n - 1]));
    }
}

proof fn lemma_same_cell(
    key: Seq<(char, Ingredient)>,
    pattern: Seq<&'static str>,
    area: Area,
    a: Grid,
    b: Grid,
    y: int,
    x: int,
    mirrored: bool,
)
    requires
        same_items(a, b),
    ensures
        cell_defined(key, pattern, area.placement(a), y, x, mirrored) == cell_defined(
            key,
            pattern,
            area.placement(b),
            y,
            x,
            mirrored,
        ),
        cell_matches(key, pattern, area.placement(a), y, x, mirrored) == cell_matches(
            key,
            pattern,
            area.placement(b),
            y,
            x,
            mirrored,
        ),
{
    let i = area.placement(a).cell(y, x, mirrored);
    assert(i == area.placement(b).cell(y, x, mirrored));
    if 0 <= i < a.stacks.len() {
        assert(alike(a.stacks[i], b.stacks[i]));
    }
}

proof fn lemma_same_pattern(
    key: Seq<(char, Ingredient)>,
    pattern: Seq<&'static str>,
    area: Area,
    a: Grid,
    b: Grid,
    mirrored: bool,
)
    requires
        same_items(a, b),
        pattern_matches(key, pattern, area.placement(a), mirrored),
    ensures
        pattern_matches(key, pattern, area.placement(b), mirrored),
{
    assert forall|y: int, x: int| in_pattern(pattern, y, x) implies #[trigger] cell_matches(
        key,
        pattern,
        area.placement(b),
        y,
        x,
        mirrored,
    ) by {
        assert(cell_matches(key, pattern, area.placement(a), y, x, mirrored));
        lemma_same_cell(key, pattern, area, a, b, y, x, mirrored);
    }
}

proof fn lemma_same_definedness(
    key: Seq<(char, Ingredient)>,
    pattern: Seq<&'static str>,
    area: Area,
    a: Grid,
    b: Grid,
    mirrored: bool,
)
    requires
        same_items(a, b),
        pattern_defined(key, pattern, area.placement(a), mirrored),
    ensures
        pattern_defined(key, pattern, area.placement(b), mirrored),
{
    let pa = area.placement(a);
    let pb = area.placement(b);
    assert forall|y: int, x: int|
        in_pattern(pattern, y, x) && (forall|y1: int, x1: int|
            in_pattern(pattern, y1, x1) && read_before(y1, x1, y, x) ==> #[trigger] cell_matches(
                key,
                pattern,
                pb,
                y1,
                x1,
                mirrored,
            )) implies #[trigger] cell_defined(key, pattern, pb, y, x, mirrored) by {
        assert forall|y1: int, x1: int|
            in_pattern(pattern, y1, x1) && read_before(y1, x1, y, x) implies #[trigger]
        cell_matches(key, pattern, pa, y1, x1, mirrored) by {
            assert(cell_matches(key, pattern, pb, y1, x1, mirrored));
            lemma_same_cell(key, pattern, area, a, b, y1, x1, mirrored);
        }
        assert(cell_defined(key, pattern, pa, y, x, mirrored));
        lemma_same_cell(key, pattern, area, a, b, y, x, mirrored);
    }
}

proof fn lemma_same_items_sym(a: Grid, b: Grid)
    requires
        same_items(a, b),
    ensures
        same_items(b, a),
{
    assert forall|i: int| 0 <= i < b.stacks.len() implies alike(
        #[trigger] b.stacks[i],
        a.stacks[i],
    ) by {
        assert(alike(a.stacks[i], b.stacks[i]));
    }
}

proof fn lemma_same_shaped(
    key: Seq<(char, Ingredient)>,
    pattern: Seq<&'static str>,
    area: Area,
    a: Grid,
    b: Grid,
)
    requires
        same_items(a, b),
    ensures
        shaped_matches(key, pattern, area, a) == shaped_matches(key, pattern, area, b),
        shaped_defined(key, pattern, area, a) == shaped_defined(key, pattern, area, b),
{
    lemma_same_items_sym(a, b);
    assert forall|mirrored: bool|
        #![trigger pattern_matches(key, pattern, area.placement(a), mirrored)]
        pattern_matches(key, pattern, area.placement(a), mirrored) == pattern_matches(
            key,
            pattern,
            area.placement(b),
            mirrored,
        ) by {
        if pattern_matches(key, pattern, area.placement(a), mirrored) {
            lemma_same_pattern(key, pattern, area, a, b, mirrored);
        }
        if pattern_matches(key, pattern, area.placement(b), mirrored) {
            lemma_same_pattern(key, pattern, area, b, a, mirrored);
        }
    }
    assert forall|mirrored: bool|
        #![trigger pattern_defined(key, pattern, area.placement(a), mirrored)]
        pattern_defined(key, pattern, area.placement(a), mirrored) == pattern_defined(
            key,
            pattern,
            area.placement(b),
            mirrored,
        ) by {
        if pattern_defined(key, pattern, area.placement(a), mirrored) {
            lemma_same_definedness(key, pattern, area, a, b, mirrored);
        }
        if pattern_defined(key, pattern, area.placement(b), mirrored) {
            lemma_same_definedness(key, pattern, area, b, a, mirrored);
        }
    }
}

proof fn lemma_same_assignment(a: Grid, b: Grid, ingredients: Seq<Ingredient>, n: int)
    requires
        same_items(a, b),
        n <= a.stacks.len(),
    ensures
        assign_ingredients(a.stacks, ingredients, n) == assign_ingredients(
            b.stacks,
            ingredients,
            n,
        ),
    decreases n,
{
    if n > 0 {
        lemma_same_assignment(a, b, ingredients, n - 1);
        assert(alike(a.stacks[n - 1], b.stacks[n - 1]));
    }
}

proof fn lemma_same_transmuted(
    input: Ingredient,
    material: Ingredient,
    area: Area,
    a: Grid,
    b: Grid,
)
    requires
        same_items(a, b),
        transmute_matches(input, material, area, a),
    ensures
        transmute_matches(input, material, area, b),
{
    assert forall|i: int| 0 <= i < b.stacks.len() && #[trigger] b.occupied(i) implies
        material.accepts(b.stacks[i].item@) || input.accepts(b.stacks[i].item@) by {
        assert(alike(a.stacks[i], b.stacks[i]));
        assert(a.occupied(i));
    }
}

proof fn lemma_same_pot(pot_ingredients: Seq<&'static str>, area: Area, a: Grid, b: Grid)
    requires
        a.wf(),
        same_items(a, b),
        pot_matches(pot_ingredients, area, a),
    ensures
        pot_matches(pot_ingredients, area, b),
{
    assert forall|i: int| i == 1 || i == 3 || i == 5 || i == 7 implies #[trigger] b.occupied(i)
        && names_item(pot_ingredients, b.stacks[i].item@) by {
        assert(a.occupied(i));
        assert(alike(a.stacks[i], b.stacks[i]));
    }
}

proof fn lemma_same_result(
    recipe: CraftingRecipeTypes,
    area: Area,
    pot_ingredients: Seq<&'static str>,
    a: Grid,
    b: Grid,
)
    requires
        a.wf(),
        b.wf(),
        same_items(a, b),
    ensures
        recipe_result(recipe, area, a, pot_ingredients) == recipe_result(
            recipe,
            area,
            b,
            pot_ingredients,
        ),
        recipe_defined(recipe, area, a) == recipe_defined(recipe, area, b),
{
    lemma_same_items_sym(a, b);
    match recipe {
        CraftingRecipeTypes::CraftingShaped { key, pattern, .. } => {
            lemma_same_shaped(key@, pattern@, area, a, b);
        },
        CraftingRecipeTypes::CraftingShapeless { ingredients, .. } => {
            lemma_same_assignment(a, b, ingredients@, a.stacks.len() as int);
        },
        CraftingRecipeTypes::CraftingTransmute { input, material, .. } => {
            if transmute_matches(input, material, area, a) {
                lemma_same_transmuted(input, material, area, a, b);
            }
            if transmute_matches(input, material, area, b) {
                lemma_same_transmuted(input, material, area, b, a);
            }
        },
        CraftingRecipeTypes::CraftingDecoratedPot => {
            if pot_matches(pot_ingredients, area, a) {
                lemma_same_pot(pot_ingredients, area, a, b);
            }
            if pot_matches(pot_ingredients, area, b) {
                lemma_same_pot(pot_ingredients, area, b, a);
            }
        },
        CraftingRecipeTypes::CraftingSpecial => {},
    }
}

/// Where each recipe of a book yields the same for two grids, the first that matches is the same.
pub proof fn lemma_same_first_match(book: RecipeBook, a: Grid, b: Grid, from: int)
    requires
        forall|i: int|
            0 <= i < book.recipes@.len() ==> #[trigger] nth_result(book, a, i) == nth_result(
                book,
                b,
                i,
            ),
    ensures
        first_match(book, a, from) == first_match(book, b, from),
    decreases book.recipes@.len() - from,
{
    if 0 <= from < book.recipes@.len() {
        assert(nth_result(book, a, from) == nth_result(book, b, from));
        lemma_same_first_match(book, a, b, from + 1);
    }
}

/// What is found for a grid depends on the items in its cells, not on how many there are of each.
pub proof fn law_counts_do_not_matter(book: RecipeBook, a: Grid, b: Grid, cached: Option<usize>)
    requires
        a.wf(),
        b.wf(),
        same_items(a, b),
    ensures
        find_match(book, a, cached) == find_match(book, b, cached),
        search_defined(book, a, cached) == search_defined(book, b, cached),
{
    lemma_same_extent(a, b, a.stacks.len() as int);
    assert(occupied_area(a) == occupied_area(b));
    assert forall|i: int| #[trigger] nth_result(book, a, i) == nth_result(book, b, i) by {
        lemma_same_result(
            book.recipes@[i],
            occupied_area(a),
            book.decorated_pot_ingredients@,
            a,
            b,
        );
    }
    assert forall|i: int| #[trigger] nth_result(book, b, i) == nth_result(book, a, i) by {
        assert(nth_result(book, a, i) == nth_result(book, b, i));
    }
    assert forall|i: int| #[trigger] nth_defined(book, a, i) == nth_defined(book, b, i) by {
        lemma_same_result(
            book.recipes@[i],
            occupied_area(a),
            book.decorated_pot_ingredients@,
            a,
            b,
        );
    }
    assert forall|i: int| #[trigger] nth_defined(book, b, i) == nth_defined(book, a, i) by {
        assert(nth_defined(book, a, i) == nth_defined(book, b, i));
    }
    lemma_same_first_match(book, a, b, 0);
    if search_defined(book, a, cached) {
        lemma_same_search(book, a, b, cached);
    }
    if search_defined(book, b, cached) {
        lemma_same_search(book, b, a, cached);
    }
}

proof fn lemma_same_search(book: RecipeBook, a: Grid, b: Grid, cached: Option<usize>)
    requires
        full_extent(a) == full_extent(b),
        forall|i: int| #[trigger] nth_result(book, a, i) == nth_result(book, b, i),
        forall|i: int| #[trigger] nth_defined(book, a, i) == nth_defined(book, b, i),
        search_defined(book, a, cached),
    ensures
        search_defined(book, b, cached),
{
    if full_extent(b).count > 0 {
        if cached is Some {
            let i = cached.unwrap() as int;
            assert(nth_result(book, a, i) == nth_result(book, b, i));
            assert(nth_defined(book, a, i) == nth_defined(book, b, i));
        }
        if cached is Some ==> nth_result(book, b, cached.unwrap() as int) is None {
            assert forall|i: int|
                0 <= i < book.recipes@.len() && (forall|j: int|
                    0 <= j < i ==> #[trigger] nth_result(book, b, j) is None) implies #[trigger]
            nth_defined(book, b, i) by {
                assert forall|j: int| 0 <= j < i implies #[trigger] nth_result(book, a, j)
                    is None by {
                    assert(nth_result(book, b, j) is None);
                }
                assert(nth_defined(book, a, i) == nth_defined(book, b, i));
            }
        }
    }
}

} // verus!
