//! Finding the recipe that matches a grid of stacks.
use crate::inventory::{Grid, RecipeInputInventory, WorkstationInventory};
use crate::matching::{recipe_defined, recipe_result, try_recipe_matches, RecipeMatch};
use crate::pattern::Area;
use crate::recipes::{RecipeBook, RecipeResultStruct};
use vstd::prelude::*;

verus! {

/// What is known of the stacks of a grid after some of its cells: how many there are, and the
/// corners of the rectangle that they take up.
pub struct Extent {
    pub count: int,
    pub top_x: int,
    pub top_y: int,
    pub bottom_x: int,
    pub bottom_y: int,
}

pub open spec fn min_of(a: int, b: int) -> int {
    if a <= b {
        a
    } else {
        b
    }
}

pub open spec fn max_of(a: int, b: int) -> int {
    if a >= b {
        a
    } else {
        b
    }
}

/// The extent of the stacks in the first `n` cells.
pub open spec fn extent(grid: Grid, n: int) -> Extent
    decreases n,
{
    if n <= 0 {
        Extent { count: 0, top_x: grid.width, top_y: grid.height, bottom_x: 0, bottom_y: 0 }
    } else {
        let before = extent(grid, n - 1);
        if grid.occupied(n - 1) {
            Extent {
                count: before.count + 1,
                top_x: min_of(before.top_x, (n - 1) % grid.width),
                top_y: min_of(before.top_y, (n - 1) / grid.width),
                bottom_x: max_of(before.bottom_x, (n - 1) % grid.width),
                bottom_y: max_of(before.bottom_y, (n - 1) / grid.width),
            }
        } else {
            before
        }
    }
}

/// The extent of all stacks of a grid.
pub open spec fn full_extent(grid: Grid) -> Extent {
    extent(grid, grid.stacks.len() as int)
}

/// The area of a grid that recipes are held against.
pub open spec fn occupied_area(grid: Grid) -> Area {
    let e = full_extent(grid);
    Area {
        input_height: e.bottom_y + 1 - e.top_y,
        input_width: e.bottom_x + 1 - e.top_x,
        top_x: e.top_x,
        top_y: e.top_y,
        count: e.count,
    }
}

/// What recipe `i` of the book yields for the grid.
pub open spec fn nth_result(book: RecipeBook, grid: Grid, i: int) -> Option<RecipeResultStruct> {
    recipe_result(
        book.recipes@[i],
        occupied_area(grid),
        grid,
        book.decorated_pot_ingredients@,
    )
}

/// Recipe `i` of the book can be held against the grid.
pub open spec fn nth_defined(book: RecipeBook, grid: Grid, i: int) -> bool {
    recipe_defined(book.recipes@[i], occupied_area(grid), grid)
}

/// The first recipe from `from` on that matches, with what it yields.
pub open spec fn first_match(book: RecipeBook, grid: Grid, from: int) -> Option<
    (RecipeResultStruct, usize),
>
    decreases book.recipes@.len() - from,
{
    if from < 0 || from >= book.recipes@.len() {
        None
    } else {
        match nth_result(book, grid, from) {
            Some(result) => Some((result, from as usize)),
            None => first_match(book, grid, from + 1),
        }
    }
}

/// The recipe for a grid, with what it yields: none for an empty grid; else the recipe remembered
/// as `cached`, if that matches; else the first of the book that does.
pub open spec fn find_match(book: RecipeBook, grid: Grid, cached: Option<usize>) -> Option<
    (RecipeResultStruct, usize),
> {
    if full_extent(grid).count == 0 {
        None
    } else if cached is Some && nth_result(book, grid, cached.unwrap() as int) is Some {
        Some((nth_result(book, grid, cached.unwrap() as int).unwrap(), cached.unwrap()))
    } else {
        first_match(book, grid, 0)
    }
}

/// Every recipe that is reached in the search can be held against the grid.
pub open spec fn search_defined(book: RecipeBook, grid: Grid, cached: Option<usize>) -> bool {
    full_extent(grid).count > 0 ==> {
        &&& cached is Some ==> nth_defined(book, grid, cached.unwrap() as int)
        &&& (cached is Some ==> nth_result(book, grid, cached.unwrap() as int) is None) ==> (
        forall|i: int|
            0 <= i < book.recipes@.len() && (forall|j: int|
                0 <= j < i ==> #[trigger] nth_result(book, grid, j) is None)
                ==> #[trigger] nth_defined(book, grid, i))
    }
}

/// What is remembered after a search: the recipe that was found, or what was remembered before.
pub open spec fn remembered(
    found: Option<(RecipeResultStruct, usize)>,
    cached: Option<usize>,
) -> Option<usize> {
    match found {
        Some((_, i)) => Some(i),
        None => cached,
    }
}

/// The area of a grid that recipes are held against.
#[derive(Clone, Copy, Debug)]
pub struct OccupiedArea {
    pub input_height: usize,
    pub input_width: usize,
    pub top_x: usize,
    pub top_y: usize,
    pub count: usize,
}

impl View for OccupiedArea {
    type V = Area;

    open spec fn view(&self) -> Area {
        Area {
            input_height: self.input_height as int,
            input_width: self.input_width as int,
            top_x: self.top_x as int,
            top_y: self.top_y as int,
            count: self.count as int,
        }
    }
}

/// Finds the area of a grid that recipes are held against; there is none in an empty grid.
pub fn find_area(inventory: &WorkstationInventory) -> (area: Option<OccupiedArea>)
    requires
        inventory.wf(),
    ensures
        area is Some <==> full_extent(inventory@).count > 0,
        area is None <==> full_extent(inventory@).count == 0,
        area is Some ==> area.unwrap()@ == occupied_area(inventory@),
{
    let mut count: usize = 0;
    let mut top_x: usize = inventory.get_width();
    let mut top_y: usize = inventory.get_height();
    let mut bottom_x: usize = 0;
    let mut bottom_y: usize = 0;
    let width: usize = inventory.get_width();
    let size: usize = inventory.size();
    let mut i: usize = 0;
    proof {
        inventory@.lemma_size();
    }
    while i < size
        invariant
            i <= size,
            inventory.wf(),
            size == inventory@.stacks.len(),
            size <= 65025,
            width == inventory@.width,
            count <= i,
            extent(inventory@, i as int) == (Extent {
                count: count as int,
                top_x: top_x as int,
                top_y: top_y as int,
                bottom_x: bottom_x as int,
                bottom_y: bottom_y as int,
            }),
            count > 0 ==> top_x <= bottom_x && top_y <= bottom_y,
            bottom_x <= 65025,
            bottom_y <= 65025,
        decreases size - i,
    {
        assert(width > 0) by {
            if width == 0 {
                assert(inventory@.width * inventory@.height == 0) by (nonlinear_arith)
                    requires
                        inventory@.width == 0,
                ;
            }
        }
        let x: usize = i % width;
        let y: usize = i / width;
        assert(y <= i) by (nonlinear_arith)
            requires
                y == i / width,
                width > 0,
        ;
        if !inventory.get_stack(i).is_empty() {
            if x < top_x {
                top_x = x;
            }
            if y < top_y {
                top_y = y;
            }
            if x > bottom_x {
                bottom_x = x;
            }
            if y > bottom_y {
                bottom_y = y;
            }
            count += 1;
        }
        i += 1;
    }
    if count == 0 {
        return None;
    }
    Some(
        OccupiedArea {
            input_height: bottom_y + 1 - top_y,
            input_width: bottom_x + 1 - top_x,
            top_x,
            top_y,
            count,
        },
    )
}

/// Holds recipe `i` of the book against a grid.
fn try_nth(
    book: RecipeBook,
    inventory: &WorkstationInventory,
    area: OccupiedArea,
    i: usize,
) -> (outcome: RecipeMatch)
    requires
        inventory.wf(),
        i < book.recipes@.len(),
        area@ == occupied_area(inventory@),
    ensures
        outcome is Undefined <==> !nth_defined(book, inventory@, i as int),
        outcome !is Undefined ==> outcome.result() == nth_result(book, inventory@, i as int),
{
    try_recipe_matches(
        &book.recipes[i],
        area.input_height,
        area.input_width,
        area.top_x,
        area.top_y,
        area.count,
        inventory,
        book.decorated_pot_ingredients,
    )
}

/// Searches the book for the recipe of a grid, the remembered recipe first: `None` when a recipe
/// that is reached cannot be held against the grid.
pub fn search(
    book: RecipeBook,
    inventory: &WorkstationInventory,
    cached: Option<usize>,
) -> (found: Option<Option<(RecipeResultStruct, usize)>>)
    requires
        inventory.wf(),
        cached is Some ==> cached.unwrap() < book.recipes@.len(),
    ensures
        found is Some <==> search_defined(book, inventory@, cached),
        found is Some ==> found.unwrap() == find_match(book, inventory@, cached),
{
    let ghost grid = inventory@;
    let area: OccupiedArea = match find_area(inventory) {
        None => {
            return Some(None);
        },
        Some(area) => area,
    };
    if let Some(i) = cached {
        match try_nth(book, inventory, area, i) {
            RecipeMatch::Yields(result) => {
                return Some(Some((result, i)));
            },
            RecipeMatch::NoMatch => {},
            RecipeMatch::Undefined => {
                return None;
            },
        }
    }
    let mut i: usize = 0;
    while i < book.recipes.len()
        invariant
            i <= book.recipes@.len(),
            inventory.wf(),
            grid == inventory@,
            area@ == occupied_area(grid),
            full_extent(grid).count > 0,
            cached is Some ==> nth_defined(book, grid, cached.unwrap() as int) && nth_result(
                book,
                grid,
                cached.unwrap() as int,
            ) is None,
            first_match(book, grid, 0) == first_match(book, grid, i as int),
            forall|j: int|
                0 <= j < i ==> #[trigger] nth_result(book, grid, j) is None && nth_defined(
                    book,
                    grid,
                    j,
                ),
        decreases book.recipes@.len() - i,
    {
        match try_nth(book, inventory, area, i) {
            RecipeMatch::Yields(result) => {
                assert(nth_result(book, grid, i as int) is Some);
                assert forall|k: int|
                    0 <= k < book.recipes@.len() && (forall|j: int|
                        0 <= j < k ==> #[trigger] nth_result(book, grid, j)
                            is None) implies #[trigger] nth_defined(book, grid, k) by {
                    if k < i {
                        assert(nth_result(book, grid, k) is None);
                    }
                }
                return Some(Some((result, i)));
            },
            RecipeMatch::NoMatch => {},
            RecipeMatch::Undefined => {
                assert(!nth_defined(book, grid, i as int));
                return None;
            },
        }
        i += 1;
    }
    assert forall|k: int| 0 <= k < book.recipes@.len() implies nth_defined(book, grid, k) by {
        assert(nth_result(book, grid, k) is None);
    }
    Some(None)
}

/// A recipe that is found in the book from `from` on lies there, and is the first that matches.
pub proof fn lemma_first_match(book: RecipeBook, grid: Grid, from: int)
    requires
        0 <= from,
    ensures
        first_match(book, grid, from) matches Some((result, i)) ==> {
            &&& from <= i < book.recipes@.len()
            &&& nth_result(book, grid, i as int) == Some(result)
            &&& forall|j: int| from <= j < i ==> #[trigger] nth_result(book, grid, j) is None
        },
        first_match(book, grid, from) is None ==> forall|j: int|
            from <= j < book.recipes@.len() ==> #[trigger] nth_result(book, grid, j) is None,
    decreases book.recipes@.len() - from,
{
    assert(book.recipes@.len() == book.recipes.len());
    if from < book.recipes@.len() && nth_result(book, grid, from) is None {
        lemma_first_match(book, grid, from + 1);
    }
}

/// A recipe that is found lies in the book.
pub proof fn lemma_match_in_book(book: RecipeBook, grid: Grid, cached: Option<usize>)
    requires
        cached is Some ==> cached.unwrap() < book.recipes@.len(),
    ensures
        find_match(book, grid, cached) matches Some((_, i)) ==> i < book.recipes@.len(),
{
    lemma_first_match(book, grid, 0);
}

/// A grid that could be searched can be searched again, with what is remembered then.
pub proof fn lemma_searchable_again(book: RecipeBook, grid: Grid, cached: Option<usize>)
    requires
        cached is Some ==> cached.unwrap() < book.recipes@.len(),
        search_defined(book, grid, cached),
    ensures
        search_defined(book, grid, remembered(find_match(book, grid, cached), cached)),
{
    lemma_first_match(book, grid, 0);
    if let Some((_, i)) = find_match(book, grid, cached) {
        assert(nth_result(book, grid, i as int) is Some);
        assert(nth_defined(book, grid, i as int));
    }
}

} // verus!
