//! Laws of the search for a recipe.
use crate::inventory::Grid;
use crate::recipes::RecipeBook;
use crate::search::{
    extent, find_match, full_extent, lemma_first_match, lemma_searchable_again, nth_result,
    remembered, search_defined,
};
use vstd::prelude::*;

verus! {

/// A recipe is found if and only if the grid holds something and some recipe of the book matches
/// it. What is remembered has no part in this.
pub proof fn law_found_iff_some_recipe_matches(
    book: RecipeBook,
    grid: Grid,
    cached: Option<usize>,
)
    requires
        cached is Some ==> cached.unwrap() < book.recipes@.len(),
    ensures
        find_match(book, grid, cached) is Some <==> full_extent(grid).count != 0 && exists|i: int|
            0 <= i < book.recipes@.len() && #[trigger] nth_result(book, grid, i) is Some,
{
    lemma_first_match(book, grid, 0);
}

/// The recipe that is found lies in the book, and what is yielded is what that recipe yields.
pub proof fn law_found_recipe_matches(book: RecipeBook, grid: Grid, cached: Option<usize>)
    requires
        cached is Some ==> cached.unwrap() < book.recipes@.len(),
    ensures
        find_match(book, grid, cached) matches Some((result, i)) ==> {
            &&& i < book.recipes@.len()
            &&& nth_result(book, grid, i as int) == Some(result)
        },
{
    lemma_first_match(book, grid, 0);
}

/// Where the remembered recipe does not match, or none is remembered, the first recipe of the book
/// that matches is found.
pub proof fn law_first_recipe_wins(book: RecipeBook, grid: Grid, cached: Option<usize>)
    requires
        cached is Some ==> nth_result(book, grid, cached.unwrap() as int) is None,
    ensures
        find_match(book, grid, cached) matches Some((result, i)) ==> forall|j: int|
            0 <= j < i ==> #[trigger] nth_result(book, grid, j) is None,
{
    lemma_first_match(book, grid, 0);
}

/// Where only one recipe of the book matches, the search finds the same whatever is remembered.
pub proof fn law_memory_is_no_matter_for_a_single_match(
    book: RecipeBook,
    grid: Grid,
    one: Option<usize>,
    other: Option<usize>,
)
    requires
        one is Some ==> one.unwrap() < book.recipes@.len(),
        other is Some ==> other.unwrap() < book.recipes@.len(),
        forall|i: int, j: int|
            0 <= i < book.recipes@.len() && 0 <= j < book.recipes@.len() && #[trigger] nth_result(
                book,
                grid,
                i,
            ) is Some && #[trigger] nth_result(book, grid, j) is Some ==> i == j,
    ensures
        find_match(book, grid, one) == find_match(book, grid, other),
{
    lemma_first_match(book, grid, 0);
}

/// A second search of the same grid is possible if the first one was, finds what that found, and
/// remembers the same.
pub proof fn law_search_again(book: RecipeBook, grid: Grid, cached: Option<usize>)
    requires
        cached is Some ==> cached.unwrap() < book.recipes@.len(),
    ensures
        ({
            let found = find_match(book, grid, cached);
            let after = remembered(found, cached);
            &&& find_match(book, grid, after) == found
            &&& remembered(found, after) == after
            &&& search_defined(book, grid, cached) ==> search_defined(book, grid, after)
        }),
{
    lemma_first_match(book, grid, 0);
    if search_defined(book, grid, cached) {
        lemma_searchable_again(book, grid, cached);
    }
}

/// The cells among the first `n` of a grid that hold something.
pub open spec fn occupied_cells(grid: Grid, n: int) -> Set<int> {
    Set::new(|i: int| 0 <= i < n && grid.occupied(i))
}

/// The count of an extent is the number of stacks that are not empty.
pub proof fn law_extent_counts_stacks(grid: Grid, n: int)
    requires
        0 <= n,
    ensures
        occupied_cells(grid, n).finite(),
        occupied_cells(grid, n).len() == extent(grid, n).count,
    decreases n,
{
    if n == 0 {
        assert(occupied_cells(grid, n) =~= Set::empty());
    } else {
        law_extent_counts_stacks(grid, n - 1);
        if grid.occupied(n - 1) {
            assert(occupied_cells(grid, n) =~= occupied_cells(grid, n - 1).insert(n - 1));
        } else {
            assert(occupied_cells(grid, n) =~= occupied_cells(grid, n - 1));
        }
    }
}

/// Every stack lies within the extent, the extent is as small as that allows, and it lies within
/// the grid.
pub proof fn law_extent_is_tight(grid: Grid, n: int)
    requires
        0 <= n <= grid.stacks.len(),
        grid.wf(),
    ensures
        ({
            let e = extent(grid, n);
            &&& forall|i: int|
                0 <= i < n && #[trigger] grid.occupied(i) ==> {
                    &&& e.top_x <= i % grid.width <= e.bottom_x
                    &&& e.top_y <= i / grid.width <= e.bottom_y
                }
            &&& e.count > 0 ==> {
                &&& exists|i: int|
                    0 <= i < n && #[trigger] grid.occupied(i) && i % grid.width == e.top_x
                &&& exists|i: int|
                    0 <= i < n && #[trigger] grid.occupied(i) && i / grid.width == e.top_y
                &&& exists|i: int|
                    0 <= i < n && #[trigger] grid.occupied(i) && i % grid.width == e.bottom_x
                &&& exists|i: int|
                    0 <= i < n && #[trigger] grid.occupied(i) && i / grid.width == e.bottom_y
                &&& 0 <= e.top_x <= e.bottom_x < grid.width
                &&& 0 <= e.top_y <= e.bottom_y < grid.height
            }
        }),
    decreases n,
{
    if n > 0 {
        law_extent_is_tight(grid, n - 1);
        assert(grid.width > 0) by {
            if grid.width == 0 {
                assert(grid.width * grid.height == 0) by (nonlinear_arith)
                    requires
                        grid.width == 0,
                ;
            }
        }
        let x = (n - 1) % grid.width;
        let y = (n - 1) / grid.width;
        assert(0 <= x < grid.width && 0 <= y < grid.height) by (nonlinear_arith)
            requires
                x == (n - 1) % grid.width,
                y == (n - 1) / grid.width,
                0 < n <= grid.width * grid.height,
                grid.width > 0,
        ;
        let e = extent(grid, n);
        let before = extent(grid, n - 1);
        if grid.occupied(n - 1) {
            assert(grid.occupied(n - 1) && (n - 1) % grid.width == x && (n - 1) / grid.width == y);
            if before.count == 0 {
                law_extent_counts_stacks(grid, n - 1);
                assert(occupied_cells(grid, n - 1) =~= Set::empty());
                lemma_extent_of_nothing(grid, n - 1);
            }
        }
    }
}

proof fn lemma_extent_of_nothing(grid: Grid, n: int)
    requires
        extent(grid, n).count == 0,
    ensures
        extent(grid, n) == extent(grid, 0),
    decreases n,
{
    if n > 0 {
        lemma_extent_count(grid, n - 1);
        lemma_extent_of_nothing(grid, n - 1);
    }
}

proof fn lemma_extent_count(grid: Grid, n: int)
    ensures
        extent(grid, n).count >= 0,
    decreases n,
{
    if n > 0 {
        lemma_extent_count(grid, n - 1);
    }
}

} // verus!
