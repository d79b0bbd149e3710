//! Holding the pattern of a shaped recipe against a grid of stacks.
use crate::inventory::{Grid, RecipeInputInventory, WorkstationInventory};
use crate::recipes::{find_ingredient, lookup, Ingredient};
use vstd::prelude::*;
use vstd::string::StrSliceExecFns;

verus! {

/// Character `j` of a row, if the row has that many.
pub open spec fn nth_char(row: Seq<char>, j: int) -> Option<char> {
    if 0 <= j < row.len() {
        Some(row[j])
    } else {
        None
    }
}

/// The width of a pattern: the length of its first row in bytes.
pub open spec fn pattern_width(pattern: Seq<&'static str>) -> int {
    if pattern.len() == 0 {
        0
    } else {
        pattern[0].len() as int
    }
}

/// A pattern is symmetrical when all its rows are as long as the first and each row reads the
/// same from both ends.
pub open spec fn symmetrical(pattern: Seq<&'static str>) -> bool {
    let width = pattern_width(pattern);
    forall|y: int| 0 <= y < pattern.len() ==> {
        &&& (#[trigger] pattern[y]).len() == width
        &&& forall|j: int|
            0 <= j < width / 2 ==> #[trigger] nth_char(pattern[y]@, j) == nth_char(
                pattern[y]@,
                width - j - 1,
            )
    }
}

/// Reads character `j` of a row, if the row has that many.
fn char_at(row: &str, j: usize) -> (c: Option<char>)
    ensures
        c == nth_char(row@, j as int),
{
    if j < row.unicode_len() {
        Some(row.get_char(j))
    } else {
        None
    }
}

/// Whether a pattern is its own mirror image.
pub fn is_symmetrical_horizontally(pattern: &'static [&'static str]) -> (symmetric: bool)
    ensures
        symmetric == symmetrical(pattern@),
{
    let width: usize = if pattern.len() == 0 {
        0
    } else {
        pattern[0].len()
    };
    let mut y: usize = 0;
    while y < pattern.len()
        invariant
            y <= pattern@.len(),
            width == pattern_width(pattern@),
            forall|r: int| 0 <= r < y ==> {
                &&& (#[trigger] pattern@[r]).len() == width
                &&& forall|j: int|
                    0 <= j < (width as int) / 2 ==> #[trigger] nth_char(pattern@[r]@, j)
                        == nth_char(pattern@[r]@, width - j - 1)
            },
        decreases pattern@.len() - y,
    {
        let row = pattern[y];
        if row.len() != width {
            return false;
        }
        let mut j: usize = 0;
        while j < width / 2
            invariant
                y < pattern@.len(),
                row == pattern@[y as int],
                width == pattern_width(pattern@),
                j <= width / 2,
                forall|k: int|
                    0 <= k < j ==> #[trigger] nth_char(row@, k) == nth_char(row@, width - k - 1),
            decreases width / 2 - j,
        {
            if char_at(row, j) != char_at(row, width - j - 1) {
                assert(nth_char(row@, j as int) != nth_char(row@, width - j - 1));
                return false;
            }
            j += 1;
        }
        y += 1;
    }
    true
}

/// A pattern laid over a grid: the grid, the place of the pattern's first cell, and the width of
/// the area that the pattern is to cover.
pub struct Placement {
    pub grid: Grid,
    pub top_x: int,
    pub top_y: int,
    pub input_width: int,
}

impl Placement {
    /// The column of the grid over which column `x` of the pattern lies.
    pub open spec fn column(self, x: int, mirrored: bool) -> int {
        if mirrored {
            self.top_x + self.input_width - 1 - x
        } else {
            self.top_x + x
        }
    }

    /// The cell of the grid over which cell `(x, y)` of the pattern lies.
    pub open spec fn cell(self, y: int, x: int, mirrored: bool) -> int {
        (self.top_y + y) * self.grid.width + self.column(x, mirrored)
    }
}

/// Whether the pattern has a cell `(x, y)`.
pub open spec fn in_pattern(pattern: Seq<&'static str>, y: int, x: int) -> bool {
    0 <= y < pattern.len() && 0 <= x < pattern[y].len()
}

/// Whether a cell is read before another, row after row and from the left in each.
pub open spec fn read_before(y1: int, x1: int, y2: int, x2: int) -> bool {
    y1 < y2 || (y1 == y2 && x1 < x2)
}

/// A cell of the pattern can be held against the grid when the pattern has a character there, the
/// grid has a cell under it, and the key knows the character if it is no blank.
pub open spec fn cell_defined(
    key: Seq<(char, Ingredient)>,
    pattern: Seq<&'static str>,
    p: Placement,
    y: int,
    x: int,
    mirrored: bool,
) -> bool {
    &&& x < pattern[y]@.len()
    &&& p.column(x, mirrored) >= 0
    &&& 0 <= p.cell(y, x, mirrored) < p.grid.stacks.len()
    &&& pattern[y]@[x] != ' ' ==> find_ingredient(key, pattern[y]@[x], 0) is Some
}

/// A cell of the pattern fits the grid when it is blank over an empty cell, or names an ingredient
/// that accepts the item in the cell.
pub open spec fn cell_matches(
    key: Seq<(char, Ingredient)>,
    pattern: Seq<&'static str>,
    p: Placement,
    y: int,
    x: int,
    mirrored: bool,
) -> bool {
    let stack = p.grid.stacks[p.cell(y, x, mirrored)];
    &&& cell_defined(key, pattern, p, y, x, mirrored)
    &&& if pattern[y]@[x] == ' ' {
        stack.is_empty()
    } else {
        find_ingredient(key, pattern[y]@[x], 0).unwrap().accepts(stack.item@)
    }
}

/// All cells of the pattern fit the grid.
pub open spec fn pattern_matches(
    key: Seq<(char, Ingredient)>,
    pattern: Seq<&'static str>,
    p: Placement,
    mirrored: bool,
) -> bool {
    forall|y: int, x: int|
        in_pattern(pattern, y, x) ==> #[trigger] cell_matches(key, pattern, p, y, x, mirrored)
}

/// Every cell that is reached, because all cells read before it fit, can be held against the grid.
pub open spec fn pattern_defined(
    key: Seq<(char, Ingredient)>,
    pattern: Seq<&'static str>,
    p: Placement,
    mirrored: bool,
) -> bool {
    forall|y: int, x: int|
        in_pattern(pattern, y, x) && (forall|y1: int, x1: int|
            in_pattern(pattern, y1, x1) && read_before(y1, x1, y, x) ==> #[trigger] cell_matches(
                key,
                pattern,
                p,
                y1,
                x1,
                mirrored,
            )) ==> #[trigger] cell_defined(key, pattern, p, y, x, mirrored)
}

/// The cell of a grid at the given place, if the grid has one there.
fn cell_of(
    inventory: &WorkstationInventory,
    top_y: usize,
    y: usize,
    column: Option<usize>,
) -> (cell: Option<usize>)
    requires
        inventory.wf(),
    ensures
        cell is Some <==> column is Some && (top_y + y) * inventory@.width + column.unwrap()
            < inventory@.stacks.len(),
        cell is Some ==> cell.unwrap() == (top_y + y) * inventory@.width + column.unwrap(),
{
    let column: usize = column?;
    let width: usize = inventory.get_width();
    let ghost row = top_y + y;
    assert(row * width >= 0) by (nonlinear_arith)
        requires
            row >= 0,
            width >= 0,
    ;
    if width == 0 {
        assert(inventory@.stacks.len() == 0) by (nonlinear_arith)
            requires
                inventory@.stacks.len() == inventory@.width * inventory@.height,
                inventory@.width == 0,
        ;
        return None;
    }
    assert(row * width >= row) by (nonlinear_arith)
        requires
            row >= 0,
            width >= 1,
    ;
    let size: usize = inventory.size();
    let row: usize = top_y.checked_add(y)?;
    let start: usize = row.checked_mul(width)?;
    let cell: usize = start.checked_add(column)?;
    if cell < size {
        Some(cell)
    } else {
        None
    }
}

/// Holds one cell of a pattern against a grid: `None` when that cannot be done.
fn compare_cell(
    key: &'static [(char, Ingredient)],
    pattern: &'static [&'static str],
    inventory: &WorkstationInventory,
    top_x: usize,
    top_y: usize,
    input_width: usize,
    y: usize,
    x: usize,
    mirrored: bool,
) -> (fits: Option<bool>)
    requires
        inventory.wf(),
        y < pattern@.len(),
    ensures
        ({
            let p = Placement {
                grid: inventory@,
                top_x: top_x as int,
                top_y: top_y as int,
                input_width: input_width as int,
            };
            &&& fits is Some <==> cell_defined(key@, pattern@, p, y as int, x as int, mirrored)
            &&& fits is Some ==> fits.unwrap() == cell_matches(
                key@,
                pattern@,
                p,
                y as int,
                x as int,
                mirrored,
            )
        }),
{
    let c: char = char_at(pattern[y], x)?;
    let column: Option<usize> = if mirrored {
        if x < input_width {
            top_x.checked_add(input_width - 1 - x)
        } else if x - input_width < top_x {
            Some(top_x - 1 - (x - input_width))
        } else {
            None
        }
    } else {
        top_x.checked_add(x)
    };
    proof {
        inventory@.lemma_size();
        assert((top_y + y) * inventory@.width >= 0) by (nonlinear_arith)
            requires
                inventory@.width >= 0,
        ;
    }
    let cell: usize = cell_of(inventory, top_y, y, column)?;
    let stack = inventory.get_stack(cell);
    if c == ' ' {
        return Some(stack.is_empty());
    }
    let ingredient: Ingredient = lookup(key, c)?;
    Some(ingredient.match_item(stack.item))
}

/// All cells of the pattern that are read before `(x, y)` fit the grid.
#[verifier::opaque]
spec fn fits_before(
    key: Seq<(char, Ingredient)>,
    pattern: Seq<&'static str>,
    p: Placement,
    mirrored: bool,
    y: int,
    x: int,
) -> bool {
    forall|y1: int, x1: int|
        in_pattern(pattern, y1, x1) && read_before(y1, x1, y, x) ==> #[trigger] cell_matches(
            key,
            pattern,
            p,
            y1,
            x1,
            mirrored,
        )
}

proof fn lemma_fits_before_first(
    key: Seq<(char, Ingredient)>,
    pattern: Seq<&'static str>,
    p: Placement,
    mirrored: bool,
)
    ensures
        fits_before(key, pattern, p, mirrored, 0, 0),
{
    reveal(fits_before);
}

proof fn lemma_fits_before_next_cell(
    key: Seq<(char, Ingredient)>,
    pattern: Seq<&'static str>,
    p: Placement,
    mirrored: bool,
    y: int,
    x: int,
)
    requires
        fits_before(key, pattern, p, mirrored, y, x),
        cell_matches(key, pattern, p, y, x, mirrored),
    ensures
        fits_before(key, pattern, p, mirrored, y, x + 1),
{
    reveal(fits_before);
    assert forall|y1: int, x1: int|
        in_pattern(pattern, y1, x1) && read_before(y1, x1, y, x + 1) implies #[trigger]
    cell_matches(
        key,
        pattern,
        p,
        y1,
        x1,
        mirrored,
    ) by {
        if !(y1 == y && x1 == x) {
            assert(read_before(y1, x1, y, x));
        }
    }
}

proof fn lemma_fits_before_next_row(
    key: Seq<(char, Ingredient)>,
    pattern: Seq<&'static str>,
    p: Placement,
    mirrored: bool,
    y: int,
)
    requires
        0 <= y < pattern.len(),
        fits_before(key, pattern, p, mirrored, y, pattern[y].len() as int),
    ensures
        fits_before(key, pattern, p, mirrored, y + 1, 0),
{
    reveal(fits_before);
    assert forall|y1: int, x1: int|
        in_pattern(pattern, y1, x1) && read_before(y1, x1, y + 1, 0) implies #[trigger]
    cell_matches(
        key,
        pattern,
        p,
        y1,
        x1,
        mirrored,
    ) by {
        assert(read_before(y1, x1, y, pattern[y].len() as int));
    }
}

proof fn lemma_fits_before_end(
    key: Seq<(char, Ingredient)>,
    pattern: Seq<&'static str>,
    p: Placement,
    mirrored: bool,
)
    requires
        fits_before(key, pattern, p, mirrored, pattern.len() as int, 0),
    ensures
        pattern_defined(key, pattern, p, mirrored),
        pattern_matches(key, pattern, p, mirrored),
{
    reveal(fits_before);
    assert forall|y: int, x: int| in_pattern(pattern, y, x) implies #[trigger] cell_defined(
        key,
        pattern,
        p,
        y,
        x,
        mirrored,
    ) by {
        assert(read_before(y, x, pattern.len() as int, 0));
        assert(cell_matches(key, pattern, p, y, x, mirrored));
    }
    assert forall|y: int, x: int| in_pattern(pattern, y, x) implies #[trigger] cell_matches(
        key,
        pattern,
        p,
        y,
        x,
        mirrored,
    ) by {
        assert(read_before(y, x, pattern.len() as int, 0));
        assert(cell_matches(key, pattern, p, y, x, mirrored));
    }
}

/// A pattern is settled by the first cell that does not fit or cannot be held against the grid.
proof fn lemma_first_misfit(
    key: Seq<(char, Ingredient)>,
    pattern: Seq<&'static str>,
    p: Placement,
    mirrored: bool,
    y: int,
    x: int,
)
    requires
        in_pattern(pattern, y, x),
        fits_before(key, pattern, p, mirrored, y, x),
    ensures
        !cell_defined(key, pattern, p, y, x, mirrored) ==> !pattern_defined(
            key,
            pattern,
            p,
            mirrored,
        ),
        cell_defined(key, pattern, p, y, x, mirrored) && !cell_matches(
            key,
            pattern,
            p,
            y,
            x,
            mirrored,
        ) ==> pattern_defined(key, pattern, p, mirrored) && !pattern_matches(
            key,
            pattern,
            p,
            mirrored,
        ),
{
    reveal(fits_before);
    if cell_defined(key, pattern, p, y, x, mirrored) && !cell_matches(
        key,
        pattern,
        p,
        y,
        x,
        mirrored,
    ) {
        assert forall|y2: int, x2: int|
            in_pattern(pattern, y2, x2) && (forall|y1: int, x1: int|
                in_pattern(pattern, y1, x1) && read_before(y1, x1, y2, x2)
                    ==> #[trigger] cell_matches(
                    key,
                    pattern,
                    p,
                    y1,
                    x1,
                    mirrored,
                )) implies #[trigger] cell_defined(key, pattern, p, y2, x2, mirrored) by {
            assert(!read_before(y, x, y2, x2));
            if read_before(y2, x2, y, x) {
                assert(cell_matches(key, pattern, p, y2, x2, mirrored));
            }
        }
    }
}

/// Holds a whole pattern against a grid: `None` when a cell that is reached cannot be.
fn compare_pattern(
    key: &'static [(char, Ingredient)],
    pattern: &'static [&'static str],
    inventory: &WorkstationInventory,
    top_x: usize,
    top_y: usize,
    input_width: usize,
    mirrored: bool,
) -> (fits: Option<bool>)
    requires
        inventory.wf(),
    ensures
        ({
            let p = Placement {
                grid: inventory@,
                top_x: top_x as int,
                top_y: top_y as int,
                input_width: input_width as int,
            };
            &&& fits is Some <==> pattern_defined(key@, pattern@, p, mirrored)
            &&& fits is Some ==> fits.unwrap() == pattern_matches(key@, pattern@, p, mirrored)
        }),
{
    let ghost p = Placement {
        grid: inventory@,
        top_x: top_x as int,
        top_y: top_y as int,
        input_width: input_width as int,
    };
    proof {
        lemma_fits_before_first(key@, pattern@, p, mirrored);
    }
    let mut y: usize = 0;
    while y < pattern.len()
        invariant
            y <= pattern@.len(),
            inventory.wf(),
            p == (Placement {
                grid: inventory@,
                top_x: top_x as int,
                top_y: top_y as int,
                input_width: input_width as int,
            }),
            fits_before(key@, pattern@, p, mirrored, y as int, 0),
        decreases pattern@.len() - y,
    {
        let width: usize = pattern[y].len();
        let mut x: usize = 0;
        while x < width
            invariant
                x <= width,
                y < pattern@.len(),
                width == pattern@[y as int].len(),
                inventory.wf(),
                p == (Placement {
                    grid: inventory@,
                    top_x: top_x as int,
                    top_y: top_y as int,
                    input_width: input_width as int,
                }),
                fits_before(key@, pattern@, p, mirrored, y as int, x as int),
            decreases width - x,
        {
            proof {
                lemma_first_misfit(key@, pattern@, p, mirrored, y as int, x as int);
            }
            let fits: bool = compare_cell(
                key,
                pattern,
                inventory,
                top_x,
                top_y,
                input_width,
                y,
                x,
                mirrored,
            )?;
            if !fits {
                return Some(false);
            }
            proof {
                lemma_fits_before_next_cell(key@, pattern@, p, mirrored, y as int, x as int);
            }
            x += 1;
        }
        proof {
            lemma_fits_before_next_row(key@, pattern@, p, mirrored, y as int);
        }
        y += 1;
    }
    proof {
        lemma_fits_before_end(key@, pattern@, p, mirrored);
    }
    Some(true)
}

/// The number of characters of a row that are no blanks.
pub open spec fn row_ingredients(row: Seq<char>) -> nat
    decreases row.len(),
{
    if row.len() == 0 {
        0
    } else {
        row_ingredients(row.drop_last()) + if row.last() != ' ' {
            1nat
        } else {
            0nat
        }
    }
}

/// The number of cells of a pattern that name an ingredient.
pub open spec fn pattern_ingredients(pattern: Seq<&'static str>) -> nat
    decreases pattern.len(),
{
    if pattern.len() == 0 {
        0
    } else {
        pattern_ingredients(pattern.drop_last()) + row_ingredients(pattern.last()@)
    }
}

proof fn lemma_row_ingredients_grow(row: Seq<char>, n: int)
    requires
        0 <= n <= row.len(),
    ensures
        row_ingredients(row.take(n)) <= row_ingredients(row),
    decreases row.len(),
{
    if n == row.len() {
        assert(row.take(n) =~= row);
    } else {
        lemma_row_ingredients_grow(row.drop_last(), n);
        assert(row.drop_last().take(n) =~= row.take(n));
    }
}

proof fn lemma_pattern_ingredients_grow(pattern: Seq<&'static str>, n: int)
    requires
        0 <= n <= pattern.len(),
    ensures
        pattern_ingredients(pattern.take(n)) <= pattern_ingredients(pattern),
    decreases pattern.len(),
{
    if n == pattern.len() {
        assert(pattern.take(n) =~= pattern);
    } else {
        lemma_pattern_ingredients_grow(pattern.drop_last(), n);
        assert(pattern.drop_last().take(n) =~= pattern.take(n));
    }
}

/// Whether a pattern names exactly `count` ingredients.
fn names_ingredients(pattern: &'static [&'static str], count: usize) -> (named: bool)
    ensures
        named == (pattern_ingredients(pattern@) == count),
{
    let mut left: usize = count;
    let mut y: usize = 0;
    while y < pattern.len()
        invariant
            y <= pattern@.len(),
            left + pattern_ingredients(pattern@.take(y as int)) == count,
        decreases pattern@.len() - y,
    {
        let row = pattern[y];
        let length: usize = row.unicode_len();
        let ghost above = pattern_ingredients(pattern@.take(y as int));
        let mut x: usize = 0;
        while x < length
            invariant
                y < pattern@.len(),
                row == pattern@[y as int],
                above == pattern_ingredients(pattern@.take(y as int)),
                length == row@.len(),
                x <= length,
                left + above + row_ingredients(row@.take(x as int)) == count,
            decreases length - x,
        {
            assert(row@.take(x + 1).drop_last() =~= row@.take(x as int));
            if row.get_char(x) != ' ' {
                if left == 0 {
                    proof {
                        lemma_row_ingredients_grow(row@, x + 1);
                        assert(pattern@.take(y + 1).drop_last() =~= pattern@.take(y as int));
                        lemma_pattern_ingredients_grow(pattern@, y + 1);
                    }
                    return false;
                }
                left -= 1;
            }
            x += 1;
        }
        assert(row@.take(length as int) =~= row@);
        assert(pattern@.take(y + 1).drop_last() =~= pattern@.take(y as int));
        y += 1;
    }
    assert(pattern@.take(pattern@.len() as int) =~= pattern@);
    left == 0
}

/// The occupied part of a grid that a recipe is held against: its size, its first cell, and the
/// number of stacks in it.
pub struct Area {
    pub input_height: int,
    pub input_width: int,
    pub top_x: int,
    pub top_y: int,
    pub count: int,
}

impl Area {
    /// A pattern whose first cell lies over the first cell of the area.
    pub open spec fn placement(self, grid: Grid) -> Placement {
        Placement { grid, top_x: self.top_x, top_y: self.top_y, input_width: self.input_width }
    }
}

/// A pattern has the size of the area and asks for as many stacks as there are in it.
pub open spec fn pattern_fits(pattern: Seq<&'static str>, area: Area) -> bool {
    &&& pattern.len() == area.input_height
    &&& pattern_width(pattern) == area.input_width
    &&& pattern_ingredients(pattern) == area.count
}

/// A shaped recipe matches when its pattern fits the grid as it stands or, unless the pattern is
/// symmetrical, mirrored.
pub open spec fn shaped_matches(
    key: Seq<(char, Ingredient)>,
    pattern: Seq<&'static str>,
    area: Area,
    grid: Grid,
) -> bool {
    let p = area.placement(grid);
    &&& pattern_fits(pattern, area)
    &&& pattern_matches(key, pattern, p, false) || (!symmetrical(pattern) && pattern_matches(
        key,
        pattern,
        p,
        true,
    ))
}

/// A shaped recipe can be held against the grid.
pub open spec fn shaped_defined(
    key: Seq<(char, Ingredient)>,
    pattern: Seq<&'static str>,
    area: Area,
    grid: Grid,
) -> bool {
    let p = area.placement(grid);
    &&& pattern.len() == area.input_height ==> pattern.len() > 0
    &&& pattern_fits(pattern, area) ==> {
        &&& pattern_defined(key, pattern, p, false)
        &&& !pattern_matches(key, pattern, p, false) && !symmetrical(pattern) ==> pattern_defined(
            key,
            pattern,
            p,
            true,
        )
    }
}

/// Holds a shaped recipe against a grid: `None` when that cannot be done.
pub fn compare_shaped(
    key: &'static [(char, Ingredient)],
    pattern: &'static [&'static str],
    input_height: usize,
    input_width: usize,
    top_x: usize,
    top_y: usize,
    count: usize,
    inventory: &WorkstationInventory,
) -> (matched: Option<bool>)
    requires
        inventory.wf(),
    ensures
        ({
            let area = Area {
                input_height: input_height as int,
                input_width: input_width as int,
                top_x: top_x as int,
                top_y: top_y as int,
                count: count as int,
            };
            &&& matched is Some <==> shaped_defined(key@, pattern@, area, inventory@)
            &&& matched is Some ==> matched.unwrap() == shaped_matches(
                key@,
                pattern@,
                area,
                inventory@,
            )
        }),
{
    if pattern.len() != input_height {
        return Some(false);
    }
    if pattern.len() == 0 {
        return None;
    }
    if pattern[0].len() != input_width || !names_ingredients(pattern, count) {
        return Some(false);
    }
    if compare_pattern(key, pattern, inventory, top_x, top_y, input_width, false)? {
        return Some(true);
    }
    if is_symmetrical_horizontally(pattern) {
        return Some(false);
    }
    compare_pattern(key, pattern, inventory, top_x, top_y, input_width, true)
}

} // verus!
