//! Laws of shaped recipes.
use crate::inventory::Grid;
use crate::item::ItemStack;
use crate::laws::searching::law_extent_is_tight;
use crate::matching::recipe_defined;
use crate::pattern::{
    cell_defined, cell_matches, in_pattern, nth_char, pattern_fits, pattern_matches, pattern_width,
    shaped_matches, symmetrical, Area, Placement,
};
use crate::recipes::{find_ingredient, CraftingRecipeTypes, Ingredient, RecipeBook};
use crate::search::{full_extent, nth_defined, occupied_area, search_defined};
use vstd::prelude::*;

verus! {

/// All rows of a pattern are equally long, and each of their characters takes one byte.
pub open spec fn rectangular(pattern: Seq<&'static str>) -> bool {
    forall|y: int|
        0 <= y < pattern.len() ==> (#[trigger] pattern[y]).len() == pattern_width(pattern)
            && pattern[y]@.len() == pattern_width(pattern)
}

/// A rectangular pattern is symmetrical if and only if each row reads the same backwards.
pub proof fn law_symmetrical_rows_read_backwards(pattern: Seq<&'static str>)
    requires
        rectangular(pattern),
    ensures
        symmetrical(pattern) <==> forall|y: int|
            0 <= y < pattern.len() ==> (#[trigger] pattern[y])@.reverse() =~= pattern[y]@,
{
    let width = pattern_width(pattern);
    if symmetrical(pattern) {
        assert forall|y: int| 0 <= y < pattern.len() implies (#[trigger] pattern[y])@.reverse()
            =~= pattern[y]@ by {
            let row = pattern[y]@;
            assert forall|x: int| 0 <= x < row.len() implies row.reverse()[x] == row[x] by {
                let other = width - x - 1;
                if x < width / 2 {
                    assert(nth_char(row, x) == nth_char(row, width - x - 1));
                } else if other < width / 2 {
                    assert(nth_char(row, other) == nth_char(row, width - other - 1));
                }
            }
        }
    }
    if forall|y: int|
        0 <= y < pattern.len() ==> (#[trigger] pattern[y])@.reverse() =~= pattern[y]@ {
        assert forall|y: int| 0 <= y < pattern.len() implies {
            &&& (#[trigger] pattern[y]).len() == width
            &&& forall|j: int|
                0 <= j < width / 2 ==> #[trigger] nth_char(pattern[y]@, j) == nth_char(
                    pattern[y]@,
                    width - j - 1,
                )
        } by {
            let row = pattern[y]@;
            assert(row.reverse() =~= row);
            assert forall|j: int| 0 <= j < width / 2 implies #[trigger] nth_char(row, j)
                == nth_char(row, width - j - 1) by {
                assert(row.reverse()[j] == row[width - j - 1]);
            }
        }
    }
}

/// A symmetrical pattern fits a grid mirrored if and only if it fits as it stands.
pub proof fn law_symmetrical_fits_mirrored(
    key: Seq<(char, Ingredient)>,
    pattern: Seq<&'static str>,
    p: Placement,
)
    requires
        rectangular(pattern),
        symmetrical(pattern),
        p.input_width == pattern_width(pattern),
    ensures
        pattern_matches(key, pattern, p, true) == pattern_matches(key, pattern, p, false),
{
    law_symmetrical_rows_read_backwards(pattern);
    let width = pattern_width(pattern);
    assert forall|y: int, x: int| in_pattern(pattern, y, x) implies #[trigger] cell_matches(
        key,
        pattern,
        p,
        y,
        x,
        true,
    ) == cell_matches(key, pattern, p, y, width - 1 - x, false) && in_pattern(
        pattern,
        y,
        width - 1 - x,
    ) by {
        let row = pattern[y]@;
        assert(row.reverse() =~= row);
        assert(row.reverse()[x] == row[width - 1 - x]);
    }
    if pattern_matches(key, pattern, p, true) {
        assert forall|y: int, x: int| in_pattern(pattern, y, x) implies #[trigger] cell_matches(
            key,
            pattern,
            p,
            y,
            x,
            false,
        ) by {
            let other = width - 1 - x;
            assert(pattern[y].len() == width);
            assert(in_pattern(pattern, y, other));
            assert(cell_matches(key, pattern, p, y, other, true));
        }
    }
}

/// A shaped recipe with a rectangular pattern of the right size matches if and only if the pattern
/// fits the grid as it stands or mirrored.
pub proof fn law_shaped_matches_either_way(
    key: Seq<(char, Ingredient)>,
    pattern: Seq<&'static str>,
    area: Area,
    grid: Grid,
)
    requires
        rectangular(pattern),
        pattern_fits(pattern, area),
    ensures
        shaped_matches(key, pattern, area, grid) <==> pattern_matches(
            key,
            pattern,
            area.placement(grid),
            false,
        ) || pattern_matches(key, pattern, area.placement(grid), true),
{
    if symmetrical(pattern) {
        law_symmetrical_fits_mirrored(key, pattern, area.placement(grid));
    }
}

/// Two stacks that no recipe tells apart.
pub open spec fn alike(a: ItemStack, b: ItemStack) -> bool {
    a.is_empty() == b.is_empty() && a.item@ == b.item@
}

/// An area lies in a grid.
pub open spec fn lies_in(area: Area, grid: Grid) -> bool {
    &&& grid.wf()
    &&& 0 <= area.top_x
    &&& 0 <= area.top_y
    &&& area.top_x + area.input_width <= grid.width
    &&& area.top_y + area.input_height <= grid.height
}

/// Each place of an area lies over a cell of the grid.
pub proof fn lemma_cell_in_grid(area: Area, grid: Grid, y: int, x: int)
    requires
        lies_in(area, grid),
        0 <= y < area.input_height,
        0 <= x < area.input_width,
    ensures
        0 <= area.placement(grid).cell(y, x, false) < grid.stacks.len(),
{
    let row = area.top_y + y;
    let column = area.top_x + x;
    assert(0 <= row * grid.width + column < grid.width * grid.height) by (nonlinear_arith)
        requires
            0 <= row < grid.height,
            0 <= column < grid.width,
        ;
}

/// Whether a shaped recipe matches depends on the stacks in the area alone, not on where in the
/// grid the area lies.
pub proof fn law_shaped_matches_anywhere(
    key: Seq<(char, Ingredient)>,
    pattern: Seq<&'static str>,
    area1: Area,
    grid1: Grid,
    area2: Area,
    grid2: Grid,
)
    requires
        rectangular(pattern),
        lies_in(area1, grid1),
        lies_in(area2, grid2),
        area1.input_height == area2.input_height,
        area1.input_width == area2.input_width,
        area1.count == area2.count,
        forall|y: int, x: int|
            0 <= y < area1.input_height && 0 <= x < area1.input_width ==> alike(
                #[trigger] grid1.stacks[area1.placement(grid1).cell(y, x, false)],
                grid2.stacks[area2.placement(grid2).cell(y, x, false)],
            ),
    ensures
        shaped_matches(key, pattern, area1, grid1) == shaped_matches(key, pattern, area2, grid2),
{
    if pattern_fits(pattern, area1) {
        let p1 = area1.placement(grid1);
        let p2 = area2.placement(grid2);
        let width = area1.input_width;
        assert forall|y: int, x: int, mirrored: bool| in_pattern(pattern, y, x) implies
            #[trigger] cell_matches(key, pattern, p1, y, x, mirrored) == cell_matches(
            key,
            pattern,
            p2,
            y,
            x,
            mirrored,
        ) by {
            assert(pattern[y].len() == width);
            let column = if mirrored {
                width - 1 - x
            } else {
                x
            };
            lemma_cell_in_grid(area1, grid1, y, column);
            lemma_cell_in_grid(area2, grid2, y, column);
            assert(p1.cell(y, x, mirrored) == p1.cell(y, column, false));
            assert(p2.cell(y, x, mirrored) == p2.cell(y, column, false));
            assert(alike(
                grid1.stacks[p1.cell(y, column, false)],
                grid2.stacks[p2.cell(y, column, false)],
            ));
        }
        assert forall|mirrored: bool| #[trigger] pattern_matches(key, pattern, p1, mirrored)
            == pattern_matches(key, pattern, p2, mirrored) by {
            if pattern_matches(key, pattern, p1, mirrored) {
                assert forall|y: int, x: int|
                    in_pattern(pattern, y, x) implies #[trigger] cell_matches(
                    key,
                    pattern,
                    p2,
                    y,
                    x,
                    mirrored,
                ) by {
                    assert(cell_matches(key, pattern, p1, y, x, mirrored));
                }
            }
        }
    }
}

/// A shaped recipe is sound when its pattern has rows of one length and its key has an ingredient
/// for each character that is no blank. Other recipes always are.
pub open spec fn sound_recipe(recipe: CraftingRecipeTypes) -> bool {
    match recipe {
        CraftingRecipeTypes::CraftingShaped { key, pattern, .. } => {
            &&& pattern@.len() > 0
            &&& rectangular(pattern@)
            &&& forall|y: int, x: int|
                in_pattern(pattern@, y, x) && #[trigger] pattern@[y]@[x] != ' '
                    ==> find_ingredient(key@, pattern@[y]@[x], 0) is Some
        },
        _ => true,
    }
}

/// A sound recipe can be held against any grid.
pub proof fn law_sound_recipe_is_defined(recipe: CraftingRecipeTypes, grid: Grid)
    requires
        sound_recipe(recipe),
        grid.wf(),
        full_extent(grid).count > 0,
    ensures
        recipe_defined(recipe, occupied_area(grid), grid),
{
    let area = occupied_area(grid);
    let p = area.placement(grid);
    law_extent_is_tight(grid, grid.stacks.len() as int);
    if let CraftingRecipeTypes::CraftingShaped { key, pattern, .. } = recipe {
        if pattern_fits(pattern@, area) {
            assert forall|y: int, x: int, mirrored: bool|
                in_pattern(pattern@, y, x) implies #[trigger] cell_defined(
                key@,
                pattern@,
                p,
                y,
                x,
                mirrored,
            ) by {
                assert(pattern@[y].len() == area.input_width);
                let column = if mirrored {
                    area.input_width - 1 - x
                } else {
                    x
                };
                lemma_cell_in_grid(area, grid, y, column);
                assert(p.cell(y, x, mirrored) == p.cell(y, column, false));
                let c = pattern@[y]@[x];
                assert(c != ' ' ==> find_ingredient(key@, c, 0) is Some);
            }
        }
    }
}

/// A search of a book of sound recipes never fails, in any grid.
pub proof fn law_sound_book_is_searchable(book: RecipeBook, grid: Grid, cached: Option<usize>)
    requires
        forall|i: int| 0 <= i < book.recipes@.len() ==> sound_recipe(#[trigger] book.recipes@[i]),
        grid.wf(),
        cached is Some ==> cached.unwrap() < book.recipes@.len(),
    ensures
        search_defined(book, grid, cached),
{
    if full_extent(grid).count > 0 {
        assert forall|i: int| 0 <= i < book.recipes@.len() implies #[trigger] nth_defined(
            book,
            grid,
            i,
        ) by {
            law_sound_recipe_is_defined(book.recipes@[i], grid);
        }
    }
}

} // verus!
