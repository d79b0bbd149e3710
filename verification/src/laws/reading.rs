//! Laws on how a pattern of any form is read.
use crate::inventory::Grid;
use crate::laws::making::{
    key_names, law_key_gives_the_first_entry, lemma_key_names, something,
};
use crate::pattern::{
    cell_defined, cell_matches, in_pattern, nth_char, pattern_defined, pattern_ingredients,
    pattern_matches, pattern_width, read_before, row_ingredients, shaped_matches,
    symmetrical, Area,
};
use crate::recipes::{Ingredient, RecipeBook};
use crate::search::{nth_defined, occupied_area};
use vstd::prelude::*;

verus! {

/// Where each character takes one byte, a pattern is symmetrical if and only if all its rows are as
/// long as the first, and each has the same character at the same distance from either end.
pub proof fn law_symmetry(pattern: Seq<&'static str>)
    requires
        forall|y: int|
            0 <= y < pattern.len() ==> (#[trigger] pattern[y]).len() == pattern[y]@.len(),
    ensures
        symmetrical(pattern) <==> forall|y: int|
            0 <= y < pattern.len() ==> {
                &&& (#[trigger] pattern[y])@.len() == pattern[0]@.len()
                &&& forall|x: int|
                    0 <= x < pattern[y]@.len() ==> #[trigger] pattern[y]@[x]
                        == pattern[y]@[pattern[y]@.len() - 1 - x]
            },
{
    let width = pattern_width(pattern);
    if symmetrical(pattern) {
        assert forall|y: int| 0 <= y < pattern.len() implies {
            &&& (#[trigger] pattern[y])@.len() == pattern[0]@.len()
            &&& forall|x: int|
                0 <= x < pattern[y]@.len() ==> #[trigger] pattern[y]@[x]
                    == pattern[y]@[pattern[y]@.len() - 1 - x]
        } by {
            let row = pattern[y]@;
            assert(pattern[0].len() == pattern[0]@.len());
            assert forall|x: int| 0 <= x < row.len() implies #[trigger] row[x] == row[row.len() - 1
                - x] by {
                if x < width / 2 {
                    assert(nth_char(row, x) == nth_char(row, width - x - 1));
                } else if width - 1 - x < width / 2 {
                    let other = width - 1 - x;
                    assert(nth_char(row, other) == nth_char(row, width - other - 1));
                }
            }
        }
    }
    if forall|y: int|
        0 <= y < pattern.len() ==> {
            &&& (#[trigger] pattern[y])@.len() == pattern[0]@.len()
            &&& forall|x: int|
                0 <= x < pattern[y]@.len() ==> #[trigger] pattern[y]@[x]
                    == pattern[y]@[pattern[y]@.len() - 1 - x]
        } {
        assert forall|y: int| 0 <= y < pattern.len() implies {
            &&& (#[trigger] pattern[y]).len() == width
            &&& forall|j: int|
                0 <= j < width / 2 ==> #[trigger] nth_char(pattern[y]@, j) == nth_char(
                    pattern[y]@,
                    width - j - 1,
                )
        } by {
            let row = pattern[y]@;
            assert(pattern[0].len() == pattern[0]@.len());
            assert forall|j: int| 0 <= j < width / 2 implies #[trigger] nth_char(row, j)
                == nth_char(row, width - j - 1) by {
                assert(row[j] == row[row.len() - 1 - j]);
            }
        }
    }
}

/// How many characters of a row are no blanks.
pub open spec fn named_places(row: Seq<char>) -> nat {
    row.filter(|c: char| c != ' ').len()
}

/// How many characters of a pattern are no blanks.
pub open spec fn places(pattern: Seq<&'static str>) -> nat {
    pattern.fold_left(0nat, |sum: nat, row: &'static str| sum + named_places(row@))
}

proof fn lemma_named_places(row: Seq<char>)
    ensures
        named_places(row) == row_ingredients(row),
    decreases row.len(),
{
    reveal(Seq::filter);
    if row.len() > 0 {
        lemma_named_places(row.drop_last());
    }
}

proof fn lemma_places(pattern: Seq<&'static str>)
    ensures
        places(pattern) == pattern_ingredients(pattern),
    decreases pattern.len(),
{
    if pattern.len() > 0 {
        lemma_places(pattern.drop_last());
        lemma_named_places(pattern.last()@);
    }
}

/// The cell of a grid over which column `x` of row `y` of a pattern lies, when the pattern starts
/// at the first cell of an area; none where the grid has no cell there.
pub open spec fn cell_beneath(
    area: Area,
    grid: Grid,
    mirrored: bool,
    y: int,
    x: int,
) -> Option<int> {
    let column = area.top_x + if mirrored {
        area.input_width - 1 - x
    } else {
        x
    };
    let cell = (area.top_y + y) * grid.width + column;
    if column >= 0 && 0 <= cell < grid.stacks.len() {
        Some(cell)
    } else {
        None
    }
}

/// Column `x` of row `y` of a pattern lies over what it asks for: nothing, for a blank, and else an
/// item that the ingredient of the character names.
pub open spec fn suits(
    key: Seq<(char, Ingredient)>,
    pattern: Seq<&'static str>,
    area: Area,
    grid: Grid,
    mirrored: bool,
    y: int,
    x: int,
) -> bool {
    &&& x < pattern[y]@.len()
    &&& cell_beneath(area, grid, mirrored, y, x) matches Some(cell) && if pattern[y]@[x] == ' ' {
        !something(grid.stacks[cell])
    } else {
        key_names(key, pattern[y]@[x], grid.stacks[cell].item@)
    }
}

/// All of a pattern, mirrored or not, lies over what it asks for.
pub open spec fn all_suits(
    key: Seq<(char, Ingredient)>,
    pattern: Seq<&'static str>,
    area: Area,
    grid: Grid,
    mirrored: bool,
) -> bool {
    forall|y: int, x: int|
        0 <= y < pattern.len() && 0 <= x < pattern[y].len() ==> #[trigger] suits(
            key,
            pattern,
            area,
            grid,
            mirrored,
            y,
            x,
        )
}

proof fn lemma_suits(
    key: Seq<(char, Ingredient)>,
    pattern: Seq<&'static str>,
    area: Area,
    grid: Grid,
    mirrored: bool,
    y: int,
    x: int,
)
    requires
        0 <= x,
    ensures
        suits(key, pattern, area, grid, mirrored, y, x) == cell_matches(
            key,
            pattern,
            area.placement(grid),
            y,
            x,
            mirrored,
        ),
{
    let cell = area.placement(grid).cell(y, x, mirrored);
    lemma_key_names(key, pattern[y]@[x], grid.stacks[cell].item@);
}

proof fn lemma_all_suits(
    key: Seq<(char, Ingredient)>,
    pattern: Seq<&'static str>,
    area: Area,
    grid: Grid,
    mirrored: bool,
)
    ensures
        all_suits(key, pattern, area, grid, mirrored) == pattern_matches(
            key,
            pattern,
            area.placement(grid),
            mirrored,
        ),
{
    let p = area.placement(grid);
    if all_suits(key, pattern, area, grid, mirrored) {
        assert forall|y: int, x: int| in_pattern(pattern, y, x) implies #[trigger] cell_matches(
            key,
            pattern,
            p,
            y,
            x,
            mirrored,
        ) by {
            assert(suits(key, pattern, area, grid, mirrored, y, x));
            lemma_suits(key, pattern, area, grid, mirrored, y, x);
        }
    }
    if pattern_matches(key, pattern, p, mirrored) {
        assert forall|y: int, x: int|
            0 <= y < pattern.len() && 0 <= x < pattern[y].len() implies #[trigger] suits(
            key,
            pattern,
            area,
            grid,
            mirrored,
            y,
            x,
        ) by {
            assert(cell_matches(key, pattern, p, y, x, mirrored));
            lemma_suits(key, pattern, area, grid, mirrored, y, x);
        }
    }
}

/// A shaped recipe, whatever the form of its pattern, matches an area of a grid if and only if the
/// pattern has as many rows as the area, and a first row as wide as the area, as many characters
/// that are no blanks as there are said to be stacks, and lies over what it asks for, as it stands
/// or, unless it is symmetrical, mirrored.
pub proof fn law_pattern_of_any_form(
    key: Seq<(char, Ingredient)>,
    pattern: Seq<&'static str>,
    area: Area,
    grid: Grid,
)
    ensures
        shaped_matches(key, pattern, area, grid) <==> {
            &&& pattern.len() == area.input_height
            &&& area.input_width == if pattern.len() > 0 {
                pattern[0].len() as int
            } else {
                0
            }
            &&& places(pattern) == area.count
            &&& all_suits(key, pattern, area, grid, false) || (!symmetrical(pattern) && all_suits(
                key,
                pattern,
                area,
                grid,
                true,
            ))
        },
{
    lemma_places(pattern);
    lemma_all_suits(key, pattern, area, grid, false);
    lemma_all_suits(key, pattern, area, grid, true);
}

/// A shaped recipe cannot be held against a grid once a character without an entry in its key, and
/// that is no blank, is reached: when all that is read before it, row after row and from the left,
/// lies over what it asks for.
pub proof fn law_unknown_character_is_noticed(
    book: RecipeBook,
    grid: Grid,
    i: int,
    y: int,
    x: int,
)
    requires
        book.recipes@[i] is CraftingShaped,
        ({
            let key = book.recipes@[i]->key@;
            let pattern = book.recipes@[i]->pattern@;
            let area = occupied_area(grid);
            &&& pattern.len() == area.input_height
            &&& 0 <= y < pattern.len()
            &&& 0 <= x < pattern[y].len()
            &&& x < pattern[y]@.len()
            &&& pattern[0].len() == area.input_width
            &&& places(pattern) == area.count
            &&& pattern[y]@[x] != ' '
            &&& forall|k: int| 0 <= k < key.len() ==> (#[trigger] key[k]).0 != pattern[y]@[x]
            &&& forall|y1: int, x1: int|
                0 <= y1 < pattern.len() && 0 <= x1 < pattern[y1].len() && (y1 < y || (y1 == y && x1
                    < x)) ==> #[trigger] suits(key, pattern, area, grid, false, y1, x1)
        }),
    ensures
        !nth_defined(book, grid, i),
{
    let key = book.recipes@[i]->key@;
    let pattern = book.recipes@[i]->pattern@;
    let area = occupied_area(grid);
    let p = area.placement(grid);
    lemma_places(pattern);
    law_key_gives_the_first_entry(key, pattern[y]@[x]);
    assert(in_pattern(pattern, y, x));
    assert forall|y1: int, x1: int|
        in_pattern(pattern, y1, x1) && read_before(y1, x1, y, x) implies #[trigger] cell_matches(
        key,
        pattern,
        p,
        y1,
        x1,
        false,
    ) by {
        assert(suits(key, pattern, area, grid, false, y1, x1));
        lemma_suits(key, pattern, area, grid, false, y1, x1);
    }
    assert(!cell_defined(key, pattern, p, y, x, false));
    assert(!pattern_defined(key, pattern, p, false));
}

} // verus!
