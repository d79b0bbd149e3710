//! Laws on which cells a matching recipe uses.
use crate::inventory::Grid;
use crate::laws::patterns::rectangular;
use crate::laws::searching::{law_extent_counts_stacks, law_extent_is_tight, occupied_cells};
use crate::matching::pot_matches;
use crate::pattern::{
    cell_matches, in_pattern, pattern_fits, pattern_ingredients, pattern_matches, row_ingredients,
    Placement,
};
use crate::recipes::Ingredient;
use crate::search::{full_extent, occupied_area};
use vstd::prelude::*;
use vstd::set_lib::{
    lemma_len_subset, lemma_len_union, lemma_set_disjoint_lens, lemma_subset_equality,
};

verus! {

/// The cells of the grid under the first `n` characters of row `y` that are no blanks.
spec fn row_cells(
    pattern: Seq<&'static str>,
    p: Placement,
    mirrored: bool,
    y: int,
    n: int,
) -> Set<int>
    decreases n,
{
    if n <= 0 {
        Set::empty()
    } else {
        let before = row_cells(pattern, p, mirrored, y, n - 1);
        if pattern[y]@[n - 1] != ' ' {
            before.insert(p.cell(y, n - 1, mirrored))
        } else {
            before
        }
    }
}

/// The cells of the grid under the characters of the first `n` rows that are no blanks.
spec fn ingredient_cells(
    pattern: Seq<&'static str>,
    p: Placement,
    mirrored: bool,
    n: int,
) -> Set<int>
    decreases n,
{
    if n <= 0 {
        Set::empty()
    } else {
        ingredient_cells(pattern, p, mirrored, n - 1).union(
            row_cells(pattern, p, mirrored, n - 1, pattern[n - 1]@.len() as int),
        )
    }
}

proof fn lemma_row_cells(pattern: Seq<&'static str>, p: Placement, mirrored: bool, y: int, n: int)
    requires
        0 <= n <= pattern[y]@.len(),
    ensures
        row_cells(pattern, p, mirrored, y, n).finite(),
        row_cells(pattern, p, mirrored, y, n).len() <= row_ingredients(pattern[y]@.take(n)),
        forall|x: int|
            0 <= x < n && #[trigger] pattern[y]@[x] != ' ' ==> row_cells(
                pattern,
                p,
                mirrored,
                y,
                n,
            ).contains(p.cell(y, x, mirrored)),
    decreases n,
{
    if n > 0 {
        lemma_row_cells(pattern, p, mirrored, y, n - 1);
        assert(pattern[y]@.take(n).drop_last() =~= pattern[y]@.take(n - 1));
        assert(pattern[y]@.take(n).last() == pattern[y]@[n - 1]);
    }
}

proof fn lemma_ingredient_cells(
    pattern: Seq<&'static str>,
    p: Placement,
    mirrored: bool,
    n: int,
)
    requires
        0 <= n <= pattern.len(),
    ensures
        ingredient_cells(pattern, p, mirrored, n).finite(),
        ingredient_cells(pattern, p, mirrored, n).len() <= pattern_ingredients(pattern.take(n)),
        forall|y: int, x: int|
            0 <= y < n && 0 <= x < pattern[y]@.len() && #[trigger] pattern[y]@[x] != ' '
                ==> ingredient_cells(pattern, p, mirrored, n).contains(p.cell(y, x, mirrored)),
    decreases n,
{
    if n > 0 {
        let length = pattern[n - 1]@.len() as int;
        lemma_ingredient_cells(pattern, p, mirrored, n - 1);
        lemma_row_cells(pattern, p, mirrored, n - 1, length);
        lemma_len_union(
            ingredient_cells(pattern, p, mirrored, n - 1),
            row_cells(pattern, p, mirrored, n - 1, length),
        );
        assert(pattern[n - 1]@.take(length) =~= pattern[n - 1]@);
        assert(pattern.take(n).drop_last() =~= pattern.take(n - 1));
        assert(pattern.take(n).last() == pattern[n - 1]);
    }
}

/// The cells under the ingredients of a row are as many as the ingredients.
proof fn lemma_row_cells_exact(
    pattern: Seq<&'static str>,
    p: Placement,
    mirrored: bool,
    y: int,
    n: int,
)
    requires
        0 <= n <= pattern[y]@.len(),
    ensures
        row_cells(pattern, p, mirrored, y, n).finite(),
        row_cells(pattern, p, mirrored, y, n).len() == row_ingredients(pattern[y]@.take(n)),
        forall|c: int| #[trigger]
            row_cells(pattern, p, mirrored, y, n).contains(c) ==> exists|x: int|
                0 <= x < n && pattern[y]@[x] != ' ' && c == #[trigger] p.cell(y, x, mirrored),
    decreases n,
{
    if n > 0 {
        lemma_row_cells_exact(pattern, p, mirrored, y, n - 1);
        assert(pattern[y]@.take(n).drop_last() =~= pattern[y]@.take(n - 1));
        assert(pattern[y]@.take(n).last() == pattern[y]@[n - 1]);
        let cells = row_cells(pattern, p, mirrored, y, n - 1);
        let last = p.cell(y, n - 1, mirrored);
        assert(!cells.contains(last)) by {
            if cells.contains(last) {
                let x = choose|x: int|
                    0 <= x < n - 1 && pattern[y]@[x] != ' ' && last == #[trigger] p.cell(
                        y,
                        x,
                        mirrored,
                    );
                assert(p.column(x, mirrored) == p.column(n - 1, mirrored));
            }
        }
        assert forall|c: int| #[trigger]
            row_cells(pattern, p, mirrored, y, n).contains(c) implies exists|x: int|
            0 <= x < n && pattern[y]@[x] != ' ' && c == #[trigger] p.cell(y, x, mirrored) by {
            if cells.contains(c) {
                let x = choose|x: int|
                    0 <= x < n - 1 && pattern[y]@[x] != ' ' && c == #[trigger] p.cell(
                        y,
                        x,
                        mirrored,
                    );
                assert(c == p.cell(y, x, mirrored));
            } else {
                assert(c == p.cell(y, n - 1, mirrored));
            }
        }
    }
}

/// The cells under the ingredients of a pattern are as many as the ingredients, where the pattern
/// lies within the columns of the grid.
proof fn lemma_ingredient_cells_exact(
    pattern: Seq<&'static str>,
    p: Placement,
    mirrored: bool,
    n: int,
)
    requires
        0 <= n <= pattern.len(),
        0 <= p.top_x,
        p.top_x + p.input_width <= p.grid.width,
        forall|y: int| 0 <= y < pattern.len() ==> (#[trigger] pattern[y])@.len() == p.input_width,
    ensures
        ingredient_cells(pattern, p, mirrored, n).finite(),
        ingredient_cells(pattern, p, mirrored, n).len() == pattern_ingredients(pattern.take(n)),
        forall|c: int| #[trigger]
            ingredient_cells(pattern, p, mirrored, n).contains(c) ==> exists|y: int, x: int|
                0 <= y < n && 0 <= x < pattern[y]@.len() && pattern[y]@[x] != ' ' && c
                    == #[trigger] p.cell(y, x, mirrored),
    decreases n,
{
    if n > 0 {
        let length = pattern[n - 1]@.len() as int;
        lemma_ingredient_cells_exact(pattern, p, mirrored, n - 1);
        lemma_row_cells_exact(pattern, p, mirrored, n - 1, length);
        let above = ingredient_cells(pattern, p, mirrored, n - 1);
        let row = row_cells(pattern, p, mirrored, n - 1, length);
        assert(above.disjoint(row)) by {
            assert forall|c: int| !(above.contains(c) && row.contains(c)) by {
                if above.contains(c) && row.contains(c) {
                    let (y1, x1) = choose|y1: int, x1: int|
                        0 <= y1 < n - 1 && 0 <= x1 < pattern[y1]@.len() && pattern[y1]@[x1] != ' '
                            && c == #[trigger] p.cell(y1, x1, mirrored);
                    let x2 = choose|x2: int|
                        0 <= x2 < length && pattern[n - 1]@[x2] != ' ' && c == #[trigger] p.cell(
                            n - 1,
                            x2,
                            mirrored,
                        );
                    let w = p.grid.width;
                    let r1 = p.top_y + y1;
                    let r2 = p.top_y + n - 1;
                    let c1 = p.column(x1, mirrored);
                    let c2 = p.column(x2, mirrored);
                    assert(pattern[y1]@.len() == p.input_width);
                    assert(r1 * w + c1 < r2 * w + c2) by (nonlinear_arith)
                        requires
                            r1 + 1 <= r2,
                            0 <= c1 < w,
                            0 <= c2 < w,
                    ;
                }
            }
        }
        lemma_set_disjoint_lens(above, row);
        assert(above.union(row) =~= above + row);
        assert(pattern[n - 1]@.take(length) =~= pattern[n - 1]@);
        assert(pattern.take(n).drop_last() =~= pattern.take(n - 1));
        assert(pattern.take(n).last() == pattern[n - 1]);
        assert forall|c: int| #[trigger]
            ingredient_cells(pattern, p, mirrored, n).contains(c) implies exists|y: int, x: int|
            0 <= y < n && 0 <= x < pattern[y]@.len() && pattern[y]@[x] != ' ' && c
                == #[trigger] p.cell(y, x, mirrored) by {
            if above.contains(c) {
                let (y, x) = choose|y: int, x: int|
                    0 <= y < n - 1 && 0 <= x < pattern[y]@.len() && pattern[y]@[x] != ' ' && c
                        == #[trigger] p.cell(y, x, mirrored);
                assert(c == p.cell(y, x, mirrored));
            } else {
                let x = choose|x: int|
                    0 <= x < length && pattern[n - 1]@[x] != ' ' && c == #[trigger] p.cell(
                        n - 1,
                        x,
                        mirrored,
                    );
                assert(c == p.cell(n - 1, x, mirrored));
            }
        }
    }
}

/// If a pattern has its ingredients over exactly the cells that hold something, then there are as
/// many stacks as ingredients.
pub proof fn lemma_covered_stacks_are_counted(
    pattern: Seq<&'static str>,
    p: Placement,
    mirrored: bool,
)
    requires
        0 <= p.top_x,
        p.top_x + p.input_width <= p.grid.width,
        forall|y: int| 0 <= y < pattern.len() ==> (#[trigger] pattern[y])@.len() == p.input_width,
        forall|y: int, x: int|
            0 <= y < pattern.len() && 0 <= x < pattern[y]@.len() && pattern[y]@[x] != ' ' ==> {
                let c = #[trigger] p.cell(y, x, mirrored);
                0 <= c < p.grid.stacks.len() && p.grid.occupied(c)
            },
        forall|c: int|
            0 <= c < p.grid.stacks.len() && #[trigger] p.grid.occupied(c) ==> exists|
                y: int,
                x: int,
            |
                0 <= y < pattern.len() && 0 <= x < pattern[y]@.len() && pattern[y]@[x] != ' ' && c
                    == #[trigger] p.cell(y, x, mirrored),
    ensures
        full_extent(p.grid).count == pattern_ingredients(pattern),
{
    let n = p.grid.stacks.len() as int;
    let occupied = occupied_cells(p.grid, n);
    let cells = ingredient_cells(pattern, p, mirrored, pattern.len() as int);
    law_extent_counts_stacks(p.grid, n);
    lemma_ingredient_cells(pattern, p, mirrored, pattern.len() as int);
    lemma_ingredient_cells_exact(pattern, p, mirrored, pattern.len() as int);
    assert(pattern.take(pattern.len() as int) =~= pattern);
    assert(occupied =~= cells) by {
        assert forall|c: int| occupied.contains(c) implies cells.contains(c) by {
            assert(p.grid.occupied(c));
            let (y, x) = choose|y: int, x: int|
                0 <= y < pattern.len() && 0 <= x < pattern[y]@.len() && pattern[y]@[x] != ' ' && c
                    == #[trigger] p.cell(y, x, mirrored);
            assert(pattern[y]@[x] != ' ');
        }
        assert forall|c: int| cells.contains(c) implies occupied.contains(c) by {
            let (y, x) = choose|y: int, x: int|
                0 <= y < pattern.len() && 0 <= x < pattern[y]@.len() && pattern[y]@[x] != ' ' && c
                    == #[trigger] p.cell(y, x, mirrored);
        }
    }
}

/// A pattern that fits the occupied area has an ingredient over each cell that holds something, and
/// over no other cell: a match leaves no stack over and counts on no stack that is not there.
pub proof fn law_shaped_match_uses_each_stack(
    key: Seq<(char, Ingredient)>,
    pattern: Seq<&'static str>,
    grid: Grid,
    mirrored: bool,
)
    requires
        grid.wf(),
        full_extent(grid).count > 0,
        rectangular(pattern),
        pattern_fits(pattern, occupied_area(grid)),
        pattern_matches(key, pattern, occupied_area(grid).placement(grid), mirrored),
    ensures
        forall|y: int, x: int|
            in_pattern(pattern, y, x) ==> (#[trigger] pattern[y]@[x] != ' ' <==> grid.occupied(
                occupied_area(grid).placement(grid).cell(y, x, mirrored),
            )),
{
    let area = occupied_area(grid);
    let p = area.placement(grid);
    let e = full_extent(grid);
    let n = grid.stacks.len() as int;
    let occupied = occupied_cells(grid, n);
    let cells = ingredient_cells(pattern, p, mirrored, pattern.len() as int);
    law_extent_counts_stacks(grid, n);
    law_extent_is_tight(grid, n);
    lemma_ingredient_cells(pattern, p, mirrored, pattern.len() as int);
    assert(pattern.take(pattern.len() as int) =~= pattern);
    assert(occupied.subset_of(cells)) by {
        assert forall|i: int| occupied.contains(i) implies cells.contains(i) by {
            let column = i % grid.width;
            let row = i / grid.width;
            assert(grid.occupied(i));
            let y = row - e.top_y;
            let x = if mirrored {
                area.input_width - 1 - (column - e.top_x)
            } else {
                column - e.top_x
            };
            assert(0 <= y < pattern.len());
            assert(pattern[y].len() == area.input_width);
            assert(in_pattern(pattern, y, x));
            assert(row * grid.width + column == i) by (nonlinear_arith)
                requires
                    column == i % grid.width,
                    row == i / grid.width,
                    grid.width > 0,
            ;
            assert(p.cell(y, x, mirrored) == i);
            assert(cell_matches(key, pattern, p, y, x, mirrored));
            assert(pattern[y]@[x] != ' ');
        }
    }
    lemma_len_subset(occupied, cells);
    lemma_subset_equality(occupied, cells);
    assert forall|y: int, x: int| in_pattern(pattern, y, x) implies (#[trigger] pattern[y]@[x]
        != ' ' <==> grid.occupied(p.cell(y, x, mirrored))) by {
        assert(pattern[y].len() == area.input_width);
        assert(cell_matches(key, pattern, p, y, x, mirrored));
        if pattern[y]@[x] != ' ' {
            assert(cells.contains(p.cell(y, x, mirrored)));
            assert(occupied.contains(p.cell(y, x, mirrored)));
        }
    }
}

/// A decorated pot uses the four cells beside the centre, and no other cell holds anything.
pub proof fn law_pot_uses_each_stack(pot_ingredients: Seq<&'static str>, grid: Grid)
    requires
        grid.wf(),
        pot_matches(pot_ingredients, occupied_area(grid), grid),
    ensures
        forall|i: int|
            0 <= i < grid.stacks.len() ==> (#[trigger] grid.occupied(i) <==> i == 1 || i == 3 || i
                == 5 || i == 7),
{
    let n = grid.stacks.len() as int;
    let occupied = occupied_cells(grid, n);
    let pot = set![1int, 3int, 5int, 7int];
    law_extent_counts_stacks(grid, n);
    assert(pot.subset_of(occupied)) by {
        assert(grid.occupied(1) && grid.occupied(3) && grid.occupied(5) && grid.occupied(7));
    }
    assert(pot.len() == 4);
    lemma_subset_equality(pot, occupied);
    assert forall|i: int| 0 <= i < grid.stacks.len() implies (#[trigger] grid.occupied(i) <==> i
        == 1 || i == 3 || i == 5 || i == 7) by {
        assert(occupied.contains(i) <==> pot.contains(i));
    }
}

} // verus!
