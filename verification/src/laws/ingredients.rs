//! Laws of shapeless recipes.
use crate::inventory::Grid;
use crate::item::ItemStack;
use crate::matching::{assign_ingredients, first_unused, shapeless_matches};
use crate::recipes::Ingredient;
use crate::search::{extent, full_extent, occupied_area};
use vstd::prelude::*;
use vstd::relations::injective_on;
use vstd::set_lib::{
    lemma_int_range, lemma_len_subset, lemma_map_size, lemma_subset_equality, set_int_range,
};

verus! {

/// The ingredient that stack `i` takes: the first one left over that accepts it.
pub open spec fn partner(stacks: Seq<ItemStack>, ingredients: Seq<Ingredient>, i: int) -> int {
    first_unused(
        ingredients,
        assign_ingredients(stacks, ingredients, i).unwrap(),
        stacks[i].item@,
        0,
    )
}

/// Some stack takes ingredient `k`.
pub open spec fn is_taken(grid: Grid, ingredients: Seq<Ingredient>, k: int) -> bool {
    exists|i: int|
        0 <= i < grid.stacks.len() && #[trigger] grid.occupied(i) && partner(
            grid.stacks,
            ingredients,
            i,
        ) == k
}

pub proof fn lemma_first_unused(
    ingredients: Seq<Ingredient>,
    used: Seq<bool>,
    item: Seq<char>,
    from: int,
)
    requires
        0 <= from <= ingredients.len(),
    ensures
        ({
            let k = first_unused(ingredients, used, item, from);
            &&& from <= k <= ingredients.len()
            &&& k < ingredients.len() ==> !used[k] && ingredients[k].accepts(item)
            &&& forall|j: int|
                from <= j < k ==> used[j] || !(#[trigger] ingredients[j]).accepts(item)
        }),
    decreases ingredients.len() - from,
{
    if from < ingredients.len() && !(!used[from] && ingredients[from].accepts(item)) {
        lemma_first_unused(ingredients, used, item, from + 1);
    }
}

/// Once an assignment of the first `n` stacks exists, it exists for fewer stacks too.
pub proof fn lemma_assigned_before(
    stacks: Seq<ItemStack>,
    ingredients: Seq<Ingredient>,
    i: int,
    n: int,
)
    requires
        0 <= i <= n,
        assign_ingredients(stacks, ingredients, n) is Some,
    ensures
        assign_ingredients(stacks, ingredients, i) is Some,
    decreases n - i,
{
    if i < n {
        lemma_assigned_before(stacks, ingredients, i, n - 1);
    }
}

/// The ingredients that are used up.
pub open spec fn used_set(used: Seq<bool>) -> Set<int> {
    Set::new(|k: int| 0 <= k < used.len() && used[k])
}

/// What is used up after `n` stacks is what these stacks took, and each took another ingredient.
pub proof fn lemma_used_by_partners(grid: Grid, ingredients: Seq<Ingredient>, n: int)
    requires
        0 <= n <= grid.stacks.len(),
        assign_ingredients(grid.stacks, ingredients, n) is Some,
    ensures
        ({
            let used = assign_ingredients(grid.stacks, ingredients, n).unwrap();
            &&& used.len() == ingredients.len()
            &&& used_set(used).finite()
            &&& used_set(used).len() == extent(grid, n).count
            &&& forall|i: int|
                0 <= i < n && #[trigger] grid.occupied(i) ==> {
                    let k = partner(grid.stacks, ingredients, i);
                    0 <= k < ingredients.len() && used[k] && ingredients[k].accepts(
                        grid.stacks[i].item@,
                    )
                }
            &&& forall|i: int, j: int|
                0 <= i < j < n && #[trigger] grid.occupied(i) && #[trigger] grid.occupied(j)
                    ==> partner(grid.stacks, ingredients, i) != partner(
                    grid.stacks,
                    ingredients,
                    j,
                )
            &&& forall|k: int|
                0 <= k < used.len() && #[trigger] used[k] ==> exists|i: int|
                    0 <= i < n && #[trigger] grid.occupied(i) && partner(
                        grid.stacks,
                        ingredients,
                        i,
                    ) == k
        }),
    decreases n,
{
    let used = assign_ingredients(grid.stacks, ingredients, n).unwrap();
    if n == 0 {
        assert(used_set(used) =~= Set::empty());
    } else {
        lemma_assigned_before(grid.stacks, ingredients, n - 1, n);
        lemma_used_by_partners(grid, ingredients, n - 1);
        let before = assign_ingredients(grid.stacks, ingredients, n - 1).unwrap();
        if grid.occupied(n - 1) {
            let k = partner(grid.stacks, ingredients, n - 1);
            lemma_first_unused(ingredients, before, grid.stacks[n - 1].item@, 0);
            assert(used == before.update(k, true));
            assert(used_set(used) =~= used_set(before).insert(k));
            assert forall|k2: int| 0 <= k2 < used.len() && #[trigger] used[k2] implies exists|i:
                int|
                0 <= i < n && #[trigger] grid.occupied(i) && partner(grid.stacks, ingredients, i)
                    == k2 by {
                if k2 == k {
                    assert(grid.occupied(n - 1));
                } else {
                    assert(before[k2]);
                    let i = choose|i: int|
                        0 <= i < n - 1 && #[trigger] grid.occupied(i) && partner(
                            grid.stacks,
                            ingredients,
                            i,
                        ) == k2;
                    assert(grid.occupied(i));
                }
            }
        } else {
            assert(used == before);
            assert forall|k2: int| 0 <= k2 < used.len() && #[trigger] used[k2] implies exists|i:
                int|
                0 <= i < n && #[trigger] grid.occupied(i) && partner(grid.stacks, ingredients, i)
                    == k2 by {
                assert(before[k2]);
                let i = choose|i: int|
                    0 <= i < n - 1 && #[trigger] grid.occupied(i) && partner(
                        grid.stacks,
                        ingredients,
                        i,
                    ) == k2;
                assert(grid.occupied(i));
            }
        }
    }
}

/// A shapeless recipe that matches pairs the stacks of the grid off with its ingredients: each
/// stack has an ingredient that accepts it, no two stacks have the same, and no ingredient is left
/// over.
pub proof fn law_shapeless_match_is_a_pairing(ingredients: Seq<Ingredient>, grid: Grid)
    requires
        shapeless_matches(ingredients, occupied_area(grid), grid),
    ensures
        forall|i: int|
            0 <= i < grid.stacks.len() && #[trigger] grid.occupied(i) ==> {
                let k = partner(grid.stacks, ingredients, i);
                0 <= k < ingredients.len() && ingredients[k].accepts(grid.stacks[i].item@)
            },
        forall|i: int, j: int|
            0 <= i < j < grid.stacks.len() && #[trigger] grid.occupied(i)
                && #[trigger] grid.occupied(j) ==> partner(grid.stacks, ingredients, i) != partner(
                grid.stacks,
                ingredients,
                j,
            ),
        forall|k: int| 0 <= k < ingredients.len() ==> #[trigger] is_taken(grid, ingredients, k),
{
    let n = grid.stacks.len() as int;
    let used = assign_ingredients(grid.stacks, ingredients, n).unwrap();
    lemma_used_by_partners(grid, ingredients, n);
    let all = set_int_range(0, ingredients.len() as int);
    lemma_int_range(0, ingredients.len() as int);
    assert(used_set(used).subset_of(all));
    lemma_subset_equality(used_set(used), all);
    assert forall|k: int| 0 <= k < ingredients.len() implies #[trigger] is_taken(
        grid,
        ingredients,
        k,
    ) by {
        assert(all.contains(k));
        assert(used_set(used).contains(k));
        assert(used[k]);
    }
}

/// No two ingredients share some of the items that they accept but not all.
pub open spec fn separable(ingredients: Seq<Ingredient>) -> bool {
    forall|a: int, b: int, item: Seq<char>, other: Seq<char>|
        0 <= a < ingredients.len() && 0 <= b < ingredients.len()
            && #[trigger] ingredients[a].accepts(item) && #[trigger] ingredients[b].accepts(item)
            && #[trigger] ingredients[a].accepts(other) ==> ingredients[b].accepts(other)
}

/// A pairing of the stacks of a grid with ingredients: each stack has an ingredient that accepts
/// it, and no two stacks have the same.
pub open spec fn is_pairing(grid: Grid, ingredients: Seq<Ingredient>, pairs: Seq<int>) -> bool {
    &&& pairs.len() == grid.stacks.len()
    &&& forall|i: int|
        0 <= i < grid.stacks.len() && #[trigger] grid.occupied(i) ==> 0 <= pairs[i]
            < ingredients.len() && ingredients[pairs[i]].accepts(grid.stacks[i].item@)
    &&& forall|i: int, j: int|
        0 <= i < j < grid.stacks.len() && #[trigger] grid.occupied(i)
            && #[trigger] grid.occupied(j) ==> pairs[i] != pairs[j]
}

proof fn lemma_paired_stacks_find_ingredients(
    grid: Grid,
    ingredients: Seq<Ingredient>,
    pairs: Seq<int>,
    n: int,
)
    requires
        separable(ingredients),
        is_pairing(grid, ingredients, pairs),
        0 <= n <= grid.stacks.len(),
    ensures
        assign_ingredients(grid.stacks, ingredients, n) is Some,
    decreases n,
{
    if n > 0 {
        let m = n - 1;
        lemma_paired_stacks_find_ingredients(grid, ingredients, pairs, m);
        lemma_used_by_partners(grid, ingredients, m);
        if grid.occupied(m) {
            let used = assign_ingredients(grid.stacks, ingredients, m).unwrap();
            let item = grid.stacks[m].item@;
            lemma_first_unused(ingredients, used, item, 0);
            if assign_ingredients(grid.stacks, ingredients, n) is None {
                let class = Set::new(
                    |k: int| 0 <= k < ingredients.len() && ingredients[k].accepts(item),
                );
                let takers = Set::new(
                    |i: int|
                        0 <= i < m && grid.occupied(i) && class.contains(
                            partner(grid.stacks, ingredients, i),
                        ),
                );
                let all = set_int_range(0, ingredients.len() as int);
                lemma_int_range(0, ingredients.len() as int);
                assert(class.subset_of(all));
                lemma_len_subset(class, all);
                let stacks = set_int_range(0, m);
                lemma_int_range(0, m);
                assert(takers.subset_of(stacks));
                lemma_len_subset(takers, stacks);
                let taken = |i: int| partner(grid.stacks, ingredients, i);
                assert(takers.map(taken) =~= class) by {
                    assert forall|k: int| class.contains(k) implies takers.map(taken).contains(
                        k,
                    ) by {
                        assert(ingredients[k].accepts(item));
                        assert(used[k]);
                        let i = choose|i: int|
                            0 <= i < m && #[trigger] grid.occupied(i) && partner(
                                grid.stacks,
                                ingredients,
                                i,
                            ) == k;
                        assert(takers.contains(i) && taken(i) == k);
                    }
                }
                assert(injective_on(taken, takers)) by {
                    assert forall|i: int, j: int|
                        takers.contains(i) && takers.contains(j) && #[trigger] taken(i)
                            == #[trigger] taken(j) implies i == j by {
                        assert(grid.occupied(i) && grid.occupied(j));
                    }
                }
                lemma_map_size(takers, class, taken);
                let claimants = takers.insert(m);
                let paired = |i: int| pairs[i];
                let claimed = claimants.map(paired);
                assert(injective_on(paired, claimants)) by {
                    assert forall|i: int, j: int|
                        claimants.contains(i) && claimants.contains(j) && #[trigger] paired(i)
                            == #[trigger] paired(j) implies i == j by {
                        assert(grid.occupied(i) && grid.occupied(j));
                    }
                }
                lemma_map_size(claimants, claimed, paired);
                assert(claimed.subset_of(class)) by {
                    assert forall|k: int| claimed.contains(k) implies class.contains(k) by {
                        let i = choose|i: int| claimants.contains(i) && paired(i) == k;
                        assert(grid.occupied(i));
                        if i != m {
                            let t = partner(grid.stacks, ingredients, i);
                            assert(ingredients[t].accepts(grid.stacks[i].item@));
                            assert(ingredients[k].accepts(grid.stacks[i].item@));
                            assert(ingredients[t].accepts(item));
                        }
                    }
                }
                lemma_len_subset(claimed, class);
            }
        }
    }
}

/// Where no two ingredients share some items but not all, a shapeless recipe matches whenever
/// there are as many stacks as ingredients and they can be paired off, in whatever cells the
/// stacks lie.
pub proof fn law_shapeless_matches_if_pairable(
    ingredients: Seq<Ingredient>,
    grid: Grid,
    pairs: Seq<int>,
)
    requires
        separable(ingredients),
        is_pairing(grid, ingredients, pairs),
        full_extent(grid).count == ingredients.len(),
    ensures
        shapeless_matches(ingredients, occupied_area(grid), grid),
{
    lemma_paired_stacks_find_ingredients(grid, ingredients, pairs, grid.stacks.len() as int);
}

} // verus!
