//! Laws on using up the stacks of an input grid.
use crate::inventory::Grid;
use crate::item::ItemStack;
use crate::laws::crafting::{law_counts_do_not_matter, same_items};
use crate::laws::patterns::alike;
use crate::laws::searching::law_search_again;
use crate::recipes::RecipeBook;
use crate::result_slot::{smallest_count, take_from_all, take_one, ResultSlot};
use crate::search::{find_match, search_defined};
use vstd::prelude::*;

verus! {

/// How often a grid can be used before a stack in it runs out.
pub open spec fn uses(grid: Grid) -> int {
    smallest_count(grid.stacks, grid.stacks.len() as int)
}

/// A grid after its stacks have been used `n` times.
pub open spec fn take_times(grid: Grid, n: nat) -> Grid
    decreases n,
{
    if n == 0 {
        grid
    } else {
        take_from_all(take_times(grid, (n - 1) as nat))
    }
}

/// The smallest count is a lower bound of the counts of the stacks that are not empty, and is the
/// count of one of them if there are any.
pub proof fn law_smallest_count(stacks: Seq<ItemStack>, n: int)
    requires
        0 <= n <= stacks.len(),
    ensures
        1 <= smallest_count(stacks, n) <= u8::MAX,
        forall|i: int|
            0 <= i < n && !(#[trigger] stacks[i]).is_empty() ==> smallest_count(stacks, n)
                <= stacks[i].item_count,
        (exists|i: int| 0 <= i < n && !(#[trigger] stacks[i]).is_empty()) ==> exists|i: int|
            0 <= i < n && !(#[trigger] stacks[i]).is_empty() && stacks[i].item_count
                == smallest_count(stacks, n),
    decreases n,
{
    if n > 0 {
        law_smallest_count(stacks, n - 1);
        let last = stacks[n - 1];
        if exists|i: int| 0 <= i < n && !(#[trigger] stacks[i]).is_empty() {
            if !last.is_empty() && last.item_count <= smallest_count(stacks, n - 1) {
                assert(!stacks[n - 1].is_empty() && stacks[n - 1].item_count == smallest_count(
                    stacks,
                    n,
                ));
            } else if exists|i: int| 0 <= i < n - 1 && !(#[trigger] stacks[i]).is_empty() {
                let i = choose|i: int|
                    0 <= i < n - 1 && !(#[trigger] stacks[i]).is_empty() && stacks[i].item_count
                        == smallest_count(stacks, n - 1);
                assert(!stacks[i].is_empty() && stacks[i].item_count == smallest_count(stacks, n));
            } else {
                lemma_smallest_of_none(stacks, n - 1);
            }
        }
    }
}

proof fn lemma_smallest_of_none(stacks: Seq<ItemStack>, n: int)
    requires
        0 <= n <= stacks.len(),
        forall|i: int| 0 <= i < n ==> (#[trigger] stacks[i]).is_empty(),
    ensures
        smallest_count(stacks, n) == u8::MAX,
    decreases n,
{
    if n > 0 {
        lemma_smallest_of_none(stacks, n - 1);
        assert(stacks[n - 1].is_empty());
    }
}

/// As long as no stack has run out, each stack that is not empty has lost one item at each use, and
/// nothing else has changed.
pub proof fn law_each_use_takes_one(grid: Grid, n: nat)
    requires
        n <= uses(grid),
    ensures
        ({
            let after = take_times(grid, n);
            &&& after.width == grid.width
            &&& after.height == grid.height
            &&& after.stacks.len() == grid.stacks.len()
            &&& forall|i: int|
                0 <= i < grid.stacks.len() ==> #[trigger] after.stacks[i] == if grid.occupied(i) {
                    ItemStack {
                        item_count: (grid.stacks[i].item_count - n) as u8,
                        ..grid.stacks[i]
                    }
                } else {
                    grid.stacks[i]
                }
        }),
    decreases n,
{
    if n > 0 {
        law_each_use_takes_one(grid, (n - 1) as nat);
        law_smallest_count(grid.stacks, grid.stacks.len() as int);
        let before = take_times(grid, (n - 1) as nat);
        let after = take_times(grid, n);
        assert forall|i: int| 0 <= i < grid.stacks.len() implies #[trigger] after.stacks[i]
            == if grid.occupied(i) {
            ItemStack { item_count: (grid.stacks[i].item_count - n) as u8, ..grid.stacks[i] }
        } else {
            grid.stacks[i]
        } by {
            assert(after.stacks[i] == take_one(before.stacks[i]));
            if grid.occupied(i) {
                assert(!grid.stacks[i].is_empty());
                assert(uses(grid) <= grid.stacks[i].item_count);
            }
        }
    }
}

/// A grid can be used as often as its smallest count says: until then it holds the same items in
/// the same cells, so the same recipe is found for it, and then at least one stack has run out.
pub proof fn law_uses(book: RecipeBook, grid: Grid, cached: Option<usize>, n: nat)
    requires
        grid.wf(),
        n <= uses(grid),
    ensures
        n < uses(grid) ==> {
            &&& same_items(grid, take_times(grid, n))
            &&& find_match(book, take_times(grid, n), cached) == find_match(book, grid, cached)
            &&& search_defined(book, take_times(grid, n), cached) == search_defined(
                book,
                grid,
                cached,
            )
        },
        n == uses(grid) && (exists|i: int| 0 <= i < grid.stacks.len() && #[trigger] grid.occupied(
            i,
        )) ==> exists|i: int|
            0 <= i < grid.stacks.len() && #[trigger] grid.occupied(i) && !take_times(
                grid,
                n,
            ).occupied(i),
{
    let after = take_times(grid, n);
    law_each_use_takes_one(grid, n);
    law_smallest_count(grid.stacks, grid.stacks.len() as int);
    if n < uses(grid) {
        assert forall|i: int| 0 <= i < grid.stacks.len() implies alike(
            #[trigger] grid.stacks[i],
            after.stacks[i],
        ) by {
            if grid.occupied(i) {
                assert(!grid.stacks[i].is_empty());
                assert(uses(grid) <= grid.stacks[i].item_count);
            }
        }
        law_counts_do_not_matter(book, grid, after, cached);
    } else if exists|i: int| 0 <= i < grid.stacks.len() && #[trigger] grid.occupied(i) {
        let j = choose|i: int| 0 <= i < grid.stacks.len() && #[trigger] grid.occupied(i);
        assert(!grid.stacks[j].is_empty());
        let i = choose|i: int|
            0 <= i < grid.stacks.len() && !(#[trigger] grid.stacks[i]).is_empty()
                && grid.stacks[i].item_count == uses(grid);
        assert(grid.occupied(i));
        assert(after.stacks[i].item_count == 0);
    }
}

/// Each use of a grid lowers the number of uses that are left by one, until a stack runs out.
pub proof fn law_use_lowers_uses(grid: Grid)
    requires
        uses(grid) > 1,
        exists|i: int| 0 <= i < grid.stacks.len() && #[trigger] grid.occupied(i),
    ensures
        uses(take_from_all(grid)) == uses(grid) - 1,
{
    let n = grid.stacks.len() as int;
    let after = take_from_all(grid);
    law_smallest_count(grid.stacks, n);
    law_smallest_count(after.stacks, n);
    let j = choose|i: int| 0 <= i < n && #[trigger] grid.occupied(i);
    assert(!grid.stacks[j].is_empty());
    let i = choose|i: int|
        0 <= i < n && !(#[trigger] grid.stacks[i]).is_empty() && grid.stacks[i].item_count == uses(
            grid,
        );
    assert(after.stacks[i] == take_one(grid.stacks[i]));
    assert(!after.stacks[i].is_empty());
    assert(uses(after) <= uses(grid) - 1);
    let k = choose|k: int|
        0 <= k < n && !(#[trigger] after.stacks[k]).is_empty() && after.stacks[k].item_count
            == uses(after);
    assert(after.stacks[k] == take_one(grid.stacks[k]));
    assert(!grid.stacks[k].is_empty());
}

/// Showing the result anew twice shows what showing it once shows.
pub proof fn law_refill_again(slot: &ResultSlot, once: &ResultSlot, twice: &ResultSlot)
    requires
        slot.wf(),
        slot.refilled(once),
        once.refilled(twice),
    ensures
        twice.inventory == once.inventory,
        twice.result == once.result,
        twice.cached() == once.cached(),
        once.matched() == slot.matched(),
{
    law_search_again(slot.book(), slot.inventory@, slot.cached());
}

/// A slot that has been shown anew, used and shown anew again shows the same result, as long as no
/// stack of its input grid has run out.
pub proof fn law_result_stays_until_a_stack_runs_out(
    slot: &ResultSlot,
    shown: &ResultSlot,
    used: &ResultSlot,
    shown_again: &ResultSlot,
)
    requires
        slot.wf(),
        slot.refilled(shown),
        uses(slot.inventory@) > 1,
        used.inventory@ == take_from_all(shown.inventory@),
        used.book() == shown.book(),
        used.cached() == shown.cached(),
        used.refilled(shown_again),
    ensures
        shown_again.result == shown.result,
        shown_again.cached() == shown.cached(),
{
    let grid = slot.inventory@;
    assert(take_times(grid, 0) == grid);
    assert(take_times(grid, 1) == take_from_all(grid));
    law_uses(slot.book(), grid, shown.cached(), 1);
    law_search_again(slot.book(), grid, slot.cached());
}

} // verus!
