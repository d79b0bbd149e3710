//! Holding recipes against a grid of stacks.
use crate::inventory::{Grid, RecipeInputInventory, WorkstationInventory};
use crate::item::ItemStack;
use crate::pattern::{compare_shaped, shaped_defined, shaped_matches, Area};
use crate::recipes::{
    is_named, names_item, CraftingRecipeTypes, Ingredient, RecipeResultStruct, DECORATED_POT,
};
use vstd::prelude::*;

verus! {

/// The first ingredient from `from` on that is not used yet and accepts the item; the number of
/// ingredients if there is none.
pub open spec fn first_unused(
    ingredients: Seq<Ingredient>,
    used: Seq<bool>,
    item: Seq<char>,
    from: int,
) -> int
    decreases ingredients.len() - from,
{
    if from < 0 || from >= ingredients.len() {
        ingredients.len() as int
    } else if !used[from] && ingredients[from].accepts(item) {
        from
    } else {
        first_unused(ingredients, used, item, from + 1)
    }
}

/// Which ingredients the first `n` stacks use up, when each stack that is not empty takes the
/// first ingredient left over that accepts it; `None` if there is none for some stack.
pub open spec fn assign_ingredients(
    stacks: Seq<ItemStack>,
    ingredients: Seq<Ingredient>,
    n: int,
) -> Option<Seq<bool>>
    decreases n,
{
    if n <= 0 {
        Some(Seq::new(ingredients.len(), |i: int| false))
    } else {
        match assign_ingredients(stacks, ingredients, n - 1) {
            None => None,
            Some(used) => if stacks[n - 1].is_empty() {
                Some(used)
            } else {
                let k = first_unused(ingredients, used, stacks[n - 1].item@, 0);
                if k < ingredients.len() {
                    Some(used.update(k, true))
                } else {
                    None
                }
            },
        }
    }
}

/// A shapeless recipe matches when there are as many stacks as ingredients and each stack finds
/// an ingredient.
pub open spec fn shapeless_matches(ingredients: Seq<Ingredient>, area: Area, grid: Grid) -> bool {
    &&& area.count == ingredients.len()
    &&& assign_ingredients(grid.stacks, ingredients, grid.stacks.len() as int) is Some
}

/// A transmutation matches when there are two stacks and each is an input or a material.
pub open spec fn transmute_matches(
    input: Ingredient,
    material: Ingredient,
    area: Area,
    grid: Grid,
) -> bool {
    &&& area.count == 2
    &&& forall|i: int|
        0 <= i < grid.stacks.len() && #[trigger] grid.occupied(i) ==> material.accepts(
            grid.stacks[i].item@,
        ) || input.accepts(grid.stacks[i].item@)
}

/// A decorated pot matches when the four cells beside the centre of a three by three grid hold pot
/// ingredients and there are four stacks.
pub open spec fn pot_matches(pot_ingredients: Seq<&'static str>, area: Area, grid: Grid) -> bool {
    &&& area.count == 4
    &&& grid.width == 3
    &&& grid.height == 3
    &&& forall|i: int|
        i == 1 || i == 3 || i == 5 || i == 7 ==> #[trigger] grid.occupied(i) && names_item(
            pot_ingredients,
            grid.stacks[i].item@,
        )
}

/// What a recipe yields for a grid, if it matches.
pub open spec fn recipe_result(
    recipe: CraftingRecipeTypes,
    area: Area,
    grid: Grid,
    pot_ingredients: Seq<&'static str>,
) -> Option<RecipeResultStruct> {
    match recipe {
        CraftingRecipeTypes::CraftingShaped { key, pattern, result } => if shaped_matches(
            key@,
            pattern@,
            area,
            grid,
        ) {
            Some(result)
        } else {
            None
        },
        CraftingRecipeTypes::CraftingShapeless { ingredients, result } => if shapeless_matches(
            ingredients@,
            area,
            grid,
        ) {
            Some(result)
        } else {
            None
        },
        CraftingRecipeTypes::CraftingTransmute { input, material, result } =>
            if transmute_matches(input, material, area, grid) {
                Some(result)
            } else {
                None
            },
        CraftingRecipeTypes::CraftingDecoratedPot => if pot_matches(pot_ingredients, area, grid) {
            Some(RecipeResultStruct { id: DECORATED_POT, count: 1 })
        } else {
            None
        },
        CraftingRecipeTypes::CraftingSpecial => None,
    }
}

/// A recipe can be held against the grid. Only shaped recipes can fail to be.
pub open spec fn recipe_defined(recipe: CraftingRecipeTypes, area: Area, grid: Grid) -> bool {
    match recipe {
        CraftingRecipeTypes::CraftingShaped { key, pattern, .. } => shaped_defined(
            key@,
            pattern@,
            area,
            grid,
        ),
        _ => true,
    }
}

/// What comes of holding a recipe against a grid.
#[derive(Clone, Copy, Debug)]
pub enum RecipeMatch {
    /// The recipe matches.
    Yields(RecipeResultStruct),
    /// The recipe does not match.
    NoMatch,
    /// The recipe cannot be held against the grid.
    Undefined,
}

impl RecipeMatch {
    /// What is yielded, if anything.
    pub open spec fn result(self) -> Option<RecipeResultStruct> {
        match self {
            RecipeMatch::Yields(result) => Some(result),
            _ => None,
        }
    }

    fn yields_if(matched: bool, result: RecipeResultStruct) -> (outcome: RecipeMatch)
        ensures
            outcome !is Undefined,
            outcome.result() == if matched {
                Some(result)
            } else {
                None
            },
    {
        if matched {
            RecipeMatch::Yields(result)
        } else {
            RecipeMatch::NoMatch
        }
    }
}

/// Gives each stack the first ingredient left over that accepts it.
fn compare_ingredients(
    ingredients: &'static [Ingredient],
    inventory: &WorkstationInventory,
) -> (assigned: bool)
    ensures
        assigned == (assign_ingredients(
            inventory@.stacks,
            ingredients@,
            inventory@.stacks.len() as int,
        ) is Some),
{
    let mut used: Vec<bool> = Vec::new();
    let mut i: usize = 0;
    while i < ingredients.len()
        invariant
            i <= ingredients@.len(),
            used@.len() == i,
            forall|j: int| 0 <= j < i ==> !#[trigger] used@[j],
        decreases ingredients@.len() - i,
    {
        used.push(false);
        i += 1;
    }
    assert(used@ =~= Seq::new(ingredients@.len(), |i: int| false));
    let ghost stacks = inventory@.stacks;
    let size: usize = inventory.size();
    let mut slot: usize = 0;
    while slot < size
        invariant
            slot <= size,
            size == stacks.len(),
            stacks == inventory@.stacks,
            used@.len() == ingredients@.len(),
            assign_ingredients(stacks, ingredients@, slot as int) == Some(used@),
        decreases size - slot,
    {
        let stack = inventory.get_stack(slot);
        if !stack.is_empty() {
            let mut k: usize = 0;
            while k < ingredients.len() && (used[k] || !ingredients[k].match_item(stack.item))
                invariant
                    k <= ingredients@.len(),
                    used@.len() == ingredients@.len(),
                    first_unused(ingredients@, used@, stack.item@, 0) == first_unused(
                        ingredients@,
                        used@,
                        stack.item@,
                        k as int,
                    ),
                decreases ingredients@.len() - k,
            {
                k += 1;
            }
            if k == ingredients.len() {
                proof {
                    lemma_assign_none(stacks, ingredients@, slot + 1, size as int);
                }
                return false;
            }
            used.set(k, true);
        }
        slot += 1;
    }
    true
}

/// Once some stack has found no ingredient, no assignment comes of the stacks after it.
proof fn lemma_assign_none(
    stacks: Seq<ItemStack>,
    ingredients: Seq<Ingredient>,
    n: int,
    m: int,
)
    requires
        n <= m,
        assign_ingredients(stacks, ingredients, n) is None,
    ensures
        assign_ingredients(stacks, ingredients, m) is None,
    decreases m - n,
{
    if n < m {
        lemma_assign_none(stacks, ingredients, n, m - 1);
    }
}

/// Whether each stack is an input or a material.
fn compare_transmuted(
    input: Ingredient,
    material: Ingredient,
    inventory: &WorkstationInventory,
) -> (matched: bool)
    ensures
        matched == forall|i: int|
            0 <= i < inventory@.stacks.len() && #[trigger] inventory@.occupied(i)
                ==> material.accepts(inventory@.stacks[i].item@) || input.accepts(
                inventory@.stacks[i].item@,
            ),
{
    let size: usize = inventory.size();
    let mut slot: usize = 0;
    while slot < size
        invariant
            slot <= size,
            size == inventory@.stacks.len(),
            forall|i: int|
                0 <= i < slot && #[trigger] inventory@.occupied(i) ==> material.accepts(
                    inventory@.stacks[i].item@,
                ) || input.accepts(inventory@.stacks[i].item@),
        decreases size - slot,
    {
        let stack = inventory.get_stack(slot);
        if !stack.is_empty() && !material.match_item(stack.item) && !input.match_item(stack.item) {
            assert(inventory@.occupied(slot as int));
            return false;
        }
        slot += 1;
    }
    true
}

/// Whether a cell holds a pot ingredient.
fn is_pot_ingredient(
    pot_ingredients: &'static [&'static str],
    inventory: &WorkstationInventory,
    slot: usize,
) -> (is_ingredient: bool)
    requires
        slot < inventory@.stacks.len(),
    ensures
        is_ingredient == (inventory@.occupied(slot as int) && names_item(
            pot_ingredients@,
            inventory@.stacks[slot as int].item@,
        )),
{
    let stack = inventory.get_stack(slot);
    !stack.is_empty() && is_named(pot_ingredients, stack.item)
}

/// Holds a recipe against a grid.
pub fn try_recipe_matches(
    recipe: &CraftingRecipeTypes,
    input_height: usize,
    input_width: usize,
    top_x: usize,
    top_y: usize,
    count: usize,
    inventory: &WorkstationInventory,
    pot_ingredients: &'static [&'static str],
) -> (outcome: RecipeMatch)
    requires
        inventory.wf(),
    ensures
        ({
            let area = Area {
                input_height: input_height as int,
                input_width: input_width as int,
                top_x: top_x as int,
                top_y: top_y as int,
                count: count as int,
            };
            &&& outcome is Undefined <==> !recipe_defined(*recipe, area, inventory@)
            &&& outcome !is Undefined ==> outcome.result() == recipe_result(
                *recipe,
                area,
                inventory@,
                pot_ingredients@,
            )
        }),
{
    match *recipe {
        CraftingRecipeTypes::CraftingShaped { key, pattern, result } => {
            match compare_shaped(
                key,
                pattern,
                input_height,
                input_width,
                top_x,
                top_y,
                count,
                inventory,
            ) {
                Some(matched) => RecipeMatch::yields_if(matched, result),
                None => RecipeMatch::Undefined,
            }
        },
        CraftingRecipeTypes::CraftingShapeless { ingredients, result } => RecipeMatch::yields_if(
            count == ingredients.len() && compare_ingredients(ingredients, inventory),
            result,
        ),
        CraftingRecipeTypes::CraftingTransmute { input, material, result } =>
            RecipeMatch::yields_if(
                count == 2 && compare_transmuted(input, material, inventory),
                result,
            ),
        CraftingRecipeTypes::CraftingDecoratedPot => RecipeMatch::yields_if(
            count == 4 && inventory.get_width() == 3 && inventory.get_height() == 3
                && is_pot_ingredient(pot_ingredients, inventory, 1) && is_pot_ingredient(
                pot_ingredients,
                inventory,
                3,
            ) && is_pot_ingredient(pot_ingredients, inventory, 5) && is_pot_ingredient(
                pot_ingredients,
                inventory,
                7,
            ),
            RecipeResultStruct { id: DECORATED_POT, count: 1 },
        ),
        CraftingRecipeTypes::CraftingSpecial => RecipeMatch::NoMatch,
    }
}

/// What a recipe yields for a grid, if it matches.
pub fn recipe_matches(
    recipe: &CraftingRecipeTypes,
    input_height: usize,
    input_width: usize,
    top_x: usize,
    top_y: usize,
    count: usize,
    inventory: &WorkstationInventory,
    pot_ingredients: &'static [&'static str],
) -> (result: Option<RecipeResultStruct>)
    requires
        inventory.wf(),
        recipe_defined(
            *recipe,
            (Area {
                input_height: input_height as int,
                input_width: input_width as int,
                top_x: top_x as int,
                top_y: top_y as int,
                count: count as int,
            }),
            inventory@,
        ),
    ensures
        result == recipe_result(
            *recipe,
            (Area {
                input_height: input_height as int,
                input_width: input_width as int,
                top_x: top_x as int,
                top_y: top_y as int,
                count: count as int,
            }),
            inventory@,
            pot_ingredients@,
        ),
{
    match try_recipe_matches(
        recipe,
        input_height,
        input_width,
        top_x,
        top_y,
        count,
        inventory,
        pot_ingredients,
    ) {
        RecipeMatch::Yields(result) => Some(result),
        _ => None,
    }
}

} // verus!
