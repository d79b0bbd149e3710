//! Crafting recipes.
use crate::item::{same_name, ItemStack};
use vstd::prelude::*;

verus! {

/// Registry name of what a decorated pot recipe yields.
pub const DECORATED_POT: &'static str = "minecraft:decorated_pot";

/// What a recipe asks for in one place: the registry names of the items that will do.
#[derive(Clone, Copy, Debug)]
pub struct Ingredient {
    pub items: &'static [&'static str],
}

/// Whether `name` is one of `names`.
pub open spec fn names_item(names: Seq<&'static str>, name: Seq<char>) -> bool {
    exists|k: int| 0 <= k < names.len() && (#[trigger] names[k])@ == name
}

/// Whether an item is one of the named items.
pub fn is_named(names: &'static [&'static str], item: &str) -> (named: bool)
    ensures
        named == names_item(names@, item@),
{
    let mut i: usize = 0;
    while i < names.len()
        invariant
            i <= names@.len(),
            forall|k: int| 0 <= k < i ==> (#[trigger] names@[k])@ != item@,
        decreases names@.len() - i,
    {
        if same_name(names[i], item) {
            return true;
        }
        i += 1;
    }
    false
}

impl Ingredient {
    pub open spec fn accepts(self, item: Seq<char>) -> bool {
        names_item(self.items@, item)
    }

    pub fn match_item(&self, item: &str) -> (matched: bool)
        ensures
            matched == self.accepts(item@),
    {
        is_named(self.items, item)
    }
}

/// What a recipe yields.
#[derive(Clone, Copy, Debug)]
pub struct RecipeResultStruct {
    pub id: &'static str,
    pub count: u8,
}

impl From<&RecipeResultStruct> for ItemStack {
    fn from(result: &RecipeResultStruct) -> (stack: ItemStack) {
        ItemStack { item: result.id, item_count: result.count }
    }
}

impl vstd::std_specs::convert::FromSpecImpl<&RecipeResultStruct> for ItemStack {
    open spec fn obeys_from_spec() -> bool {
        true
    }

    open spec fn from_spec(result: &RecipeResultStruct) -> ItemStack {
        ItemStack { item: result.id, item_count: result.count }
    }
}

/// A crafting recipe.
#[derive(Clone, Copy, Debug)]
pub enum CraftingRecipeTypes {
    /// Ingredients laid out in the rows of `pattern`. A row names the ingredient of each of its
    /// places by a character of `key`; a blank stands for a place that must stay empty.
    CraftingShaped {
        key: &'static [(char, Ingredient)],
        pattern: &'static [&'static str],
        result: RecipeResultStruct,
    },
    /// Ingredients in any place.
    CraftingShapeless { ingredients: &'static [Ingredient], result: RecipeResultStruct },
    /// An input that a material turns into something else.
    CraftingTransmute { input: Ingredient, material: Ingredient, result: RecipeResultStruct },
    /// Four pot ingredients around the centre of a three by three grid.
    CraftingDecoratedPot,
    /// A recipe that no rule of this module covers.
    CraftingSpecial,
}

/// The recipes of a game, with the item names that decorated pots are made of.
#[derive(Clone, Copy, Debug)]
pub struct RecipeBook {
    pub recipes: &'static [CraftingRecipeTypes],
    pub decorated_pot_ingredients: &'static [&'static str],
}

/// The ingredient that the entries of `key` from `from` on give for `c`: that of the first entry
/// for it.
pub open spec fn find_ingredient(key: Seq<(char, Ingredient)>, c: char, from: int) -> Option<
    Ingredient,
>
    decreases key.len() - from,
{
    if from < 0 || from >= key.len() {
        None
    } else if key[from].0 == c {
        Some(key[from].1)
    } else {
        find_ingredient(key, c, from + 1)
    }
}

/// Looks a character up in a key.
pub fn lookup(key: &'static [(char, Ingredient)], c: char) -> (ingredient: Option<Ingredient>)
    ensures
        ingredient == find_ingredient(key@, c, 0),
{
    let mut i: usize = 0;
    while i < key.len()
        invariant
            i <= key@.len(),
            find_ingredient(key@, c, 0) == find_ingredient(key@, c, i as int),
        decreases key@.len() - i,
    {
        if key[i].0 == c {
            return Some(key[i].1);
        }
        i += 1;
    }
    None
}

} // verus!
