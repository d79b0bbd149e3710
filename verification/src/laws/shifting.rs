//! Where in a grid its stacks lie does not matter to the search for a recipe.
use crate::inventory::Grid;
use crate::item::ItemStack;
use crate::laws::crafting::lemma_same_first_match;
use crate::laws::occupation::law_shaped_match_uses_each_stack;
use crate::laws::patterns::{lemma_cell_in_grid, rectangular};
use crate::laws::searching::law_extent_is_tight;
use crate::matching::{
    assign_ingredients, first_unused, pot_matches, recipe_result, shapeless_matches,
    transmute_matches,
};
use crate::pattern::{
    cell_matches, in_pattern, pattern_fits, pattern_matches, read_before, shaped_matches,
};
use crate::recipes::{names_item, CraftingRecipeTypes, Ingredient, RecipeBook};
use crate::result_slot::ResultSlot;
use crate::search::{extent, find_match, full_extent, nth_result, occupied_area};
use vstd::arithmetic::div_mod::{lemma_fundamental_div_mod, lemma_fundamental_div_mod_converse};
use vstd::prelude::*;

verus! {

/// Whether a grid holds something in column `x` of row `y`.
pub open spec fn holds(grid: Grid, y: int, x: int) -> bool {
    0 <= x < grid.width && 0 <= y < grid.height && grid.occupied(y * grid.width + x)
}

/// The item in column `x` of row `y`.
pub open spec fn item_at(grid: Grid, y: int, x: int) -> Seq<char> {
    grid.stacks[y * grid.width + x].item@
}

/// Grid `b` holds the items of grid `a`, each `dx` columns further right and `dy` rows further
/// down, and nothing else. The two grids need not be of one size.
pub open spec fn shifted(a: Grid, b: Grid, dx: int, dy: int) -> bool {
    forall|y: int, x: int|
        {
            &&& #[trigger] holds(a, y, x) == holds(b, y + dy, x + dx)
            &&& holds(a, y, x) ==> item_at(a, y, x) == item_at(b, y + dy, x + dx)
        }
}

proof fn lemma_shifted_back(a: Grid, b: Grid, dx: int, dy: int)
    requires
        shifted(a, b, dx, dy),
    ensures
        shifted(b, a, -dx, -dy),
{
    assert forall|y: int, x: int|
        {
            &&& #[trigger] holds(b, y, x) == holds(a, y + -dy, x + -dx)
            &&& holds(b, y, x) ==> item_at(b, y, x) == item_at(a, y + -dy, x + -dx)
        } by {
        assert(holds(a, y - dy, x - dx) == holds(b, y - dy + dy, x - dx + dx));
    }
}

/// The place of cell `i`.
pub proof fn lemma_place(grid: Grid, i: int)
    requires
        grid.wf(),
        0 <= i < grid.stacks.len(),
    ensures
        grid.width > 0,
        0 <= i % grid.width < grid.width,
        0 <= i / grid.width < grid.height,
        (i / grid.width) * grid.width + i % grid.width == i,
        holds(grid, i / grid.width, i % grid.width) == grid.occupied(i),
        item_at(grid, i / grid.width, i % grid.width) == grid.stacks[i].item@,
{
    let y = i / grid.width;
    let x = i % grid.width;
    assert(grid.width > 0) by (nonlinear_arith)
        requires
            0 <= i < grid.width * grid.height,
            0 <= grid.width,
    ;
    lemma_fundamental_div_mod(i, grid.width);
    assert(0 <= x < grid.width && 0 <= y < grid.height && y * grid.width + x == i)
        by (nonlinear_arith)
        requires
            i == grid.width * y + x,
            y == i / grid.width,
            x == i % grid.width,
            0 <= i < grid.width * grid.height,
            0 < grid.width,
    ;
}

/// The cell in column `x` of row `y`.
pub proof fn lemma_cell(grid: Grid, y: int, x: int)
    requires
        grid.wf(),
        0 <= x < grid.width,
        0 <= y < grid.height,
    ensures
        0 <= y * grid.width + x < grid.stacks.len(),
        (y * grid.width + x) / grid.width == y,
        (y * grid.width + x) % grid.width == x,
{
    let i = y * grid.width + x;
    assert(0 <= i < grid.width * grid.height) by (nonlinear_arith)
        requires
            i == y * grid.width + x,
            0 <= x < grid.width,
            0 <= y < grid.height,
    ;
    lemma_fundamental_div_mod_converse(i, grid.width, y, x);
}

/// Cells are numbered in the order in which they are read.
proof fn lemma_order(grid: Grid, y1: int, x1: int, y2: int, x2: int)
    requires
        0 <= x1 < grid.width,
        0 <= x2 < grid.width,
    ensures
        y1 * grid.width + x1 < y2 * grid.width + x2 <==> read_before(y1, x1, y2, x2),
{
    let w = grid.width;
    if y1 < y2 {
        assert(y1 * w + x1 < y2 * w + x2) by (nonlinear_arith)
            requires
                y1 + 1 <= y2,
                0 <= x1 < w,
                0 <= x2,
        ;
    } else if y1 > y2 {
        assert(y2 * w + x2 < y1 * w + x1) by (nonlinear_arith)
            requires
                y2 + 1 <= y1,
                0 <= x2 < w,
                0 <= x1,
        ;
    }
}

/// The items in the first `n` cells, in the order of the cells.
spec fn items_in(stacks: Seq<ItemStack>, n: int) -> Seq<Seq<char>>
    decreases n,
{
    if n <= 0 {
        Seq::empty()
    } else if stacks[n - 1].is_empty() {
        items_in(stacks, n - 1)
    } else {
        items_in(stacks, n - 1).push(stacks[n - 1].item@)
    }
}

proof fn lemma_items_are_counted(grid: Grid, n: int)
    ensures
        items_in(grid.stacks, n).len() == extent(grid, n).count,
    decreases n,
{
    if n > 0 {
        lemma_items_are_counted(grid, n - 1);
    }
}

/// The first `n` cells of `a` hold the counterparts of what the first `m` cells of `b` hold.
spec fn cut(a: Grid, b: Grid, dx: int, dy: int, n: int, m: int) -> bool {
    forall|y: int, x: int| #[trigger]
        holds(a, y, x) ==> (y * a.width + x < n <==> (y + dy) * b.width + (x + dx) < m)
}

/// What lies before a cell of `a` has its counterpart before the counterpart of the cell.
proof fn lemma_shifted_order(
    a: Grid,
    b: Grid,
    dx: int,
    dy: int,
    y1: int,
    x1: int,
    y2: int,
    x2: int,
)
    requires
        shifted(a, b, dx, dy),
        holds(a, y1, x1),
        holds(a, y2, x2),
    ensures
        y1 * a.width + x1 < y2 * a.width + x2 <==> (y1 + dy) * b.width + (x1 + dx) < (y2 + dy)
            * b.width + (x2 + dx),
{
    lemma_order(a, y1, x1, y2, x2);
    lemma_order(b, y1 + dy, x1 + dx, y2 + dy, x2 + dx);
}

proof fn lemma_shifted_items(a: Grid, b: Grid, dx: int, dy: int, n: int, m: int)
    requires
        a.wf(),
        b.wf(),
        shifted(a, b, dx, dy),
        0 <= n <= a.stacks.len(),
        0 <= m <= b.stacks.len(),
        cut(a, b, dx, dy, n, m),
    ensures
        items_in(a.stacks, n) == items_in(b.stacks, m),
    decreases n + m,
{
    lemma_shifted_back(a, b, dx, dy);
    if n > 0 && !a.occupied(n - 1) {
        assert forall|y: int, x: int| #[trigger] holds(a, y, x) implies (y * a.width + x < n - 1
            <==> (y + dy) * b.width + (x + dx) < m) by {
            assert(y * a.width + x != n - 1);
        }
        lemma_shifted_items(a, b, dx, dy, n - 1, m);
    } else if m > 0 && !b.occupied(m - 1) {
        assert forall|y: int, x: int| #[trigger] holds(a, y, x) implies (y * a.width + x < n <==> (y
            + dy) * b.width + (x + dx) < m - 1) by {
            assert(holds(b, y + dy, x + dx));
            assert((y + dy) * b.width + (x + dx) != m - 1);
        }
        lemma_shifted_items(a, b, dx, dy, n, m - 1);
    } else if n > 0 || m > 0 {
        lemma_shifted_last(a, b, dx, dy, n, m);
        let y1 = (n - 1) / a.width;
        let x1 = (n - 1) % a.width;
        lemma_place(a, n - 1);
        assert(holds(a, y1, x1));
        assert forall|y: int, x: int| #[trigger] holds(a, y, x) implies (y * a.width + x < n - 1
            <==> (y + dy) * b.width + (x + dx) < m - 1) by {
            lemma_shifted_order(a, b, dx, dy, y, x, y1, x1);
        }
        lemma_shifted_items(a, b, dx, dy, n - 1, m - 1);
    }
}

/// The last stacks of two counterparts are counterparts.
proof fn lemma_shifted_last(a: Grid, b: Grid, dx: int, dy: int, n: int, m: int)
    requires
        a.wf(),
        b.wf(),
        shifted(a, b, dx, dy),
        0 <= n <= a.stacks.len(),
        0 <= m <= b.stacks.len(),
        cut(a, b, dx, dy, n, m),
        n > 0 ==> a.occupied(n - 1),
        m > 0 ==> b.occupied(m - 1),
        n > 0 || m > 0,
    ensures
        n > 0,
        m > 0,
        ((n - 1) / a.width + dy) * b.width + ((n - 1) % a.width + dx) == m - 1,
        a.stacks[n - 1].item@ == b.stacks[m - 1].item@,
{
    lemma_shifted_back(a, b, dx, dy);
    let y1 = (n - 1) / a.width;
    let x1 = (n - 1) % a.width;
    let y2 = (m - 1) / b.width - dy;
    let x2 = (m - 1) % b.width - dx;
    if n > 0 {
        lemma_place(a, n - 1);
        assert(holds(a, y1, x1));
        assert(holds(b, y1 + dy, x1 + dx));
        lemma_cell(b, y1 + dy, x1 + dx);
    }
    if m > 0 {
        lemma_place(b, m - 1);
        assert(holds(b, y2 + dy, x2 + dx));
        assert(holds(a, y2 + dy + -dy, x2 + dx + -dx));
        assert(holds(a, y2, x2));
        lemma_cell(a, y2, x2);
    }
    lemma_shifted_order(a, b, dx, dy, y1, x1, y2, x2);
    lemma_shifted_order(a, b, dx, dy, y2, x2, y1, x1);
}

/// Which of the ingredients are used up by the given items, each of which takes the first one left
/// over that accepts it.
spec fn assign_items(items: Seq<Seq<char>>, ingredients: Seq<Ingredient>) -> Option<Seq<bool>>
    decreases items.len(),
{
    if items.len() == 0 {
        Some(Seq::new(ingredients.len(), |i: int| false))
    } else {
        match assign_items(items.drop_last(), ingredients) {
            None => None,
            Some(used) => {
                let k = first_unused(ingredients, used, items.last(), 0);
                if k < ingredients.len() {
                    Some(used.update(k, true))
                } else {
                    None
                }
            },
        }
    }
}

/// Empty stacks have no part in the assignment of ingredients.
proof fn lemma_assignment_goes_by_items(
    stacks: Seq<ItemStack>,
    ingredients: Seq<Ingredient>,
    n: int,
)
    ensures
        assign_ingredients(stacks, ingredients, n) == assign_items(
            items_in(stacks, n),
            ingredients,
        ),
    decreases n,
{
    if n > 0 {
        lemma_assignment_goes_by_items(stacks, ingredients, n - 1);
        if !stacks[n - 1].is_empty() {
            assert(items_in(stacks, n).drop_last() =~= items_in(stacks, n - 1));
        }
    }
}

/// All items of two shifted grids are the same, in the same order.
proof fn lemma_shifted_all_items(a: Grid, b: Grid, dx: int, dy: int)
    requires
        a.wf(),
        b.wf(),
        shifted(a, b, dx, dy),
    ensures
        items_in(a.stacks, a.stacks.len() as int) == items_in(b.stacks, b.stacks.len() as int),
        full_extent(a).count == full_extent(b).count,
{
    let n = a.stacks.len() as int;
    let m = b.stacks.len() as int;
    assert forall|y: int, x: int| #[trigger] holds(a, y, x) implies (y * a.width + x < n <==> (y
        + dy) * b.width + (x + dx) < m) by {
        lemma_cell(a, y, x);
        assert(holds(b, y + dy, x + dx));
        lemma_cell(b, y + dy, x + dx);
    }
    lemma_shifted_items(a, b, dx, dy, n, m);
    lemma_items_are_counted(a, n);
    lemma_items_are_counted(b, m);
}

/// What lies in cell `i` of `a` lies in `b` too, at the counterpart of the cell.
proof fn lemma_counterpart(a: Grid, b: Grid, dx: int, dy: int, i: int) -> (j: int)
    requires
        a.wf(),
        b.wf(),
        shifted(a, b, dx, dy),
        0 <= i < a.stacks.len(),
        a.occupied(i),
    ensures
        0 <= j < b.stacks.len(),
        b.occupied(j),
        b.stacks[j].item@ == a.stacks[i].item@,
        j / b.width == i / a.width + dy,
        j % b.width == i % a.width + dx,
{
    lemma_place(a, i);
    let y = i / a.width;
    let x = i % a.width;
    assert(holds(a, y, x));
    assert(holds(b, y + dy, x + dx));
    lemma_cell(b, y + dy, x + dx);
    (y + dy) * b.width + (x + dx)
}

/// The extent of `b` reaches as far as that of `a` on each side.
proof fn lemma_shifted_bounds(a: Grid, b: Grid, dx: int, dy: int)
    requires
        a.wf(),
        b.wf(),
        shifted(a, b, dx, dy),
        full_extent(a).count > 0,
    ensures
        full_extent(b).top_x <= full_extent(a).top_x + dx,
        full_extent(b).top_y <= full_extent(a).top_y + dy,
        full_extent(b).bottom_x >= full_extent(a).bottom_x + dx,
        full_extent(b).bottom_y >= full_extent(a).bottom_y + dy,
{
    let n = a.stacks.len() as int;
    let e = full_extent(a);
    law_extent_is_tight(a, n);
    law_extent_is_tight(b, b.stacks.len() as int);
    let left = choose|i: int| 0 <= i < n && #[trigger] a.occupied(i) && i % a.width == e.top_x;
    let top = choose|i: int| 0 <= i < n && #[trigger] a.occupied(i) && i / a.width == e.top_y;
    let right = choose|i: int| 0 <= i < n && #[trigger] a.occupied(i) && i % a.width == e.bottom_x;
    let bottom = choose|i: int| 0 <= i < n && #[trigger] a.occupied(i) && i / a.width == e.bottom_y;
    let j = lemma_counterpart(a, b, dx, dy, left);
    assert(b.occupied(j));
    let j = lemma_counterpart(a, b, dx, dy, top);
    assert(b.occupied(j));
    let j = lemma_counterpart(a, b, dx, dy, right);
    assert(b.occupied(j));
    let j = lemma_counterpart(a, b, dx, dy, bottom);
    assert(b.occupied(j));
}

/// The occupied areas of two shifted grids differ in their place alone.
pub proof fn law_shifted_area(a: Grid, b: Grid, dx: int, dy: int)
    requires
        a.wf(),
        b.wf(),
        shifted(a, b, dx, dy),
    ensures
        full_extent(a).count == full_extent(b).count,
        full_extent(a).count > 0 ==> {
            let area = occupied_area(a);
            let other = occupied_area(b);
            &&& other.input_height == area.input_height
            &&& other.input_width == area.input_width
            &&& other.count == area.count
            &&& other.top_x == area.top_x + dx
            &&& other.top_y == area.top_y + dy
        },
{
    lemma_shifted_all_items(a, b, dx, dy);
    if full_extent(a).count > 0 {
        lemma_shifted_back(a, b, dx, dy);
        lemma_shifted_bounds(a, b, dx, dy);
        lemma_shifted_bounds(b, a, -dx, -dy);
    }
}

proof fn lemma_shifted_pattern(
    key: Seq<(char, Ingredient)>,
    pattern: Seq<&'static str>,
    a: Grid,
    b: Grid,
    dx: int,
    dy: int,
    mirrored: bool,
)
    requires
        a.wf(),
        b.wf(),
        shifted(a, b, dx, dy),
        full_extent(a).count > 0,
        rectangular(pattern),
        pattern_fits(pattern, occupied_area(a)),
        pattern_matches(key, pattern, occupied_area(a).placement(a), mirrored),
    ensures
        pattern_matches(key, pattern, occupied_area(b).placement(b), mirrored),
{
    let area = occupied_area(a);
    let other = occupied_area(b);
    let pa = area.placement(a);
    let pb = other.placement(b);
    law_shifted_area(a, b, dx, dy);
    law_extent_is_tight(a, a.stacks.len() as int);
    law_extent_is_tight(b, b.stacks.len() as int);
    law_shaped_match_uses_each_stack(key, pattern, a, mirrored);
    assert forall|y: int, x: int| in_pattern(pattern, y, x) implies #[trigger] cell_matches(
        key,
        pattern,
        pb,
        y,
        x,
        mirrored,
    ) by {
        assert(pattern[y].len() == area.input_width);
        assert(cell_matches(key, pattern, pa, y, x, mirrored));
        let column = if mirrored {
            area.input_width - 1 - x
        } else {
            x
        };
        lemma_cell_in_grid(area, a, y, column);
        lemma_cell_in_grid(other, b, y, column);
        let row = area.top_y + y;
        let place = area.top_x + column;
        assert(holds(a, row, place) == holds(b, row + dy, place + dx));
        assert(pa.cell(y, x, mirrored) == row * a.width + place);
        assert(pb.cell(y, x, mirrored) == (row + dy) * b.width + (place + dx));
        assert(pattern[y]@[x] != ' ' <==> a.occupied(pa.cell(y, x, mirrored)));
    }
}

proof fn lemma_shifted_shaped(
    key: Seq<(char, Ingredient)>,
    pattern: Seq<&'static str>,
    a: Grid,
    b: Grid,
    dx: int,
    dy: int,
)
    requires
        a.wf(),
        b.wf(),
        shifted(a, b, dx, dy),
        full_extent(a).count > 0,
        rectangular(pattern),
        shaped_matches(key, pattern, occupied_area(a), a),
    ensures
        shaped_matches(key, pattern, occupied_area(b), b),
{
    law_shifted_area(a, b, dx, dy);
    if pattern_matches(key, pattern, occupied_area(a).placement(a), false) {
        lemma_shifted_pattern(key, pattern, a, b, dx, dy, false);
    } else {
        lemma_shifted_pattern(key, pattern, a, b, dx, dy, true);
    }
}

proof fn lemma_shifted_transmuted(
    input: Ingredient,
    material: Ingredient,
    a: Grid,
    b: Grid,
    dx: int,
    dy: int,
)
    requires
        a.wf(),
        b.wf(),
        shifted(a, b, dx, dy),
        full_extent(a).count > 0,
        transmute_matches(input, material, occupied_area(a), a),
    ensures
        transmute_matches(input, material, occupied_area(b), b),
{
    law_shifted_area(a, b, dx, dy);
    lemma_shifted_back(a, b, dx, dy);
    assert forall|i: int| 0 <= i < b.stacks.len() && #[trigger] b.occupied(i) implies
        material.accepts(b.stacks[i].item@) || input.accepts(b.stacks[i].item@) by {
        let j = lemma_counterpart(b, a, -dx, -dy, i);
        assert(a.occupied(j));
    }
}

/// If `a` is as large as decorated pots ask for, `b` is no larger.
pub open spec fn no_larger_than_a_pot(a: Grid, b: Grid) -> bool {
    a.width == 3 && a.height == 3 ==> b.width <= 3 && b.height <= 3
}

proof fn lemma_shifted_pot(
    pot_ingredients: Seq<&'static str>,
    a: Grid,
    b: Grid,
    dx: int,
    dy: int,
)
    requires
        a.wf(),
        b.wf(),
        shifted(a, b, dx, dy),
        no_larger_than_a_pot(a, b),
        full_extent(a).count > 0,
        pot_matches(pot_ingredients, occupied_area(a), a),
    ensures
        pot_matches(pot_ingredients, occupied_area(b), b),
{
    law_shifted_area(a, b, dx, dy);
    assert(a.occupied(1) && a.occupied(3) && a.occupied(5) && a.occupied(7));
    assert(holds(a, 0, 1) && holds(a, 1, 0) && holds(a, 1, 2) && holds(a, 2, 1));
    assert(dx == 0 && dy == 0 && b.width == 3 && b.height == 3);
    assert forall|i: int| i == 1 || i == 3 || i == 5 || i == 7 implies #[trigger] b.occupied(i)
        && names_item(pot_ingredients, b.stacks[i].item@) by {
        assert(a.occupied(i));
        assert(holds(a, i / 3, i % 3));
    }
}

proof fn lemma_shifted_result(
    recipe: CraftingRecipeTypes,
    pot_ingredients: Seq<&'static str>,
    a: Grid,
    b: Grid,
    dx: int,
    dy: int,
)
    requires
        a.wf(),
        b.wf(),
        shifted(a, b, dx, dy),
        full_extent(a).count > 0,
        recipe matches CraftingRecipeTypes::CraftingShaped { pattern, .. } ==> rectangular(
            pattern@,
        ),
        recipe is CraftingDecoratedPot ==> no_larger_than_a_pot(a, b),
        recipe_result(recipe, occupied_area(a), a, pot_ingredients) is Some,
    ensures
        recipe_result(recipe, occupied_area(b), b, pot_ingredients) == recipe_result(
            recipe,
            occupied_area(a),
            a,
            pot_ingredients,
        ),
{
    match recipe {
        CraftingRecipeTypes::CraftingShaped { key, pattern, .. } => {
            lemma_shifted_shaped(key@, pattern@, a, b, dx, dy);
        },
        CraftingRecipeTypes::CraftingShapeless { ingredients, .. } => {
            law_shifted_area(a, b, dx, dy);
            lemma_shifted_all_items(a, b, dx, dy);
            lemma_assignment_goes_by_items(a.stacks, ingredients@, a.stacks.len() as int);
            lemma_assignment_goes_by_items(b.stacks, ingredients@, b.stacks.len() as int);
            assert(shapeless_matches(ingredients@, occupied_area(b), b));
        },
        CraftingRecipeTypes::CraftingTransmute { input, material, .. } => {
            lemma_shifted_transmuted(input, material, a, b, dx, dy);
        },
        CraftingRecipeTypes::CraftingDecoratedPot => {
            lemma_shifted_pot(pot_ingredients, a, b, dx, dy);
        },
        CraftingRecipeTypes::CraftingSpecial => {},
    }
}

/// All shaped recipes of a book have patterns with rows of one length.
pub open spec fn rectangular_patterns(book: RecipeBook) -> bool {
    forall|i: int|
        0 <= i < book.recipes@.len() ==> (#[trigger] book.recipes@[i] matches
            CraftingRecipeTypes::CraftingShaped { pattern, .. } ==> rectangular(pattern@))
}

/// No decorated pot that fits one of the two grids is looked for in a larger one.
pub open spec fn pots_fit_alike(book: RecipeBook, a: Grid, b: Grid) -> bool {
    (exists|i: int|
        0 <= i < book.recipes@.len() && #[trigger] book.recipes@[i] is CraftingDecoratedPot) ==> {
        &&& no_larger_than_a_pot(a, b)
        &&& no_larger_than_a_pot(b, a)
    }
}

/// It does not matter to a search where in a grid the stacks lie, nor how large the grid is: the
/// same items, laid out in the same way, make the same thing. This leaves out patterns with rows of
/// different lengths, and decorated pots in a grid larger than their own.
pub proof fn law_position_does_not_matter(
    book: RecipeBook,
    a: Grid,
    b: Grid,
    dx: int,
    dy: int,
    cached: Option<usize>,
)
    requires
        a.wf(),
        b.wf(),
        shifted(a, b, dx, dy),
        rectangular_patterns(book),
        pots_fit_alike(book, a, b),
        cached is Some ==> cached.unwrap() < book.recipes@.len(),
    ensures
        find_match(book, a, cached) == find_match(book, b, cached),
{
    law_shifted_area(a, b, dx, dy);
    lemma_shifted_back(a, b, dx, dy);
    if full_extent(a).count != 0 {
        lemma_items_are_counted(a, a.stacks.len() as int);
        assert forall|i: int| 0 <= i < book.recipes@.len() implies #[trigger] nth_result(
            book,
            a,
            i,
        ) == nth_result(book, b, i) by {
            let recipe = book.recipes@[i];
            let pot_ingredients = book.decorated_pot_ingredients@;
            if nth_result(book, a, i) is Some {
                lemma_shifted_result(recipe, pot_ingredients, a, b, dx, dy);
            }
            if nth_result(book, b, i) is Some {
                lemma_shifted_result(recipe, pot_ingredients, b, a, -dx, -dy);
            }
        }
        lemma_same_first_match(book, a, b, 0);
        if cached is Some {
            let i = cached.unwrap() as int;
            assert(nth_result(book, a, i) == nth_result(book, b, i));
        }
    }
}

/// Two result slots over grids that hold the same items, in whatever place, find the same recipe
/// and the same output, if they go by the same book and remember the same, as fresh slots do.
pub proof fn law_slots_match_wherever_the_stacks_lie(
    a: &ResultSlot,
    b: &ResultSlot,
    dx: int,
    dy: int,
)
    requires
        a.wf(),
        b.wf(),
        a.book() == b.book(),
        a.cached() == b.cached(),
        shifted(a.inventory@, b.inventory@, dx, dy),
        rectangular_patterns(a.book()),
        pots_fit_alike(a.book(), a.inventory@, b.inventory@),
    ensures
        a.matched() == b.matched(),
{
    law_position_does_not_matter(a.book(), a.inventory@, b.inventory@, dx, dy, a.cached());
}

} // verus!
