//! The slot that shows what the stacks of a workstation can be made into.
use crate::inventory::{Grid, RecipeInputInventory, WorkstationInventory};
use crate::item::ItemStack;
use crate::recipe_cache::RecipeCache;
use crate::recipes::{CraftingRecipeTypes, RecipeBook, RecipeResultStruct};
use crate::search::{
    find_match, lemma_match_in_book, lemma_searchable_again, remembered, search, search_defined,
};
use vstd::prelude::*;

verus! {

/// The index that the slot answers with: it belongs to no inventory.
pub const RESULT_SLOT_INDEX: usize = 999;

/// The stack that a slot shows for a recipe that was found, or for none.
pub open spec fn output_of(found: Option<(RecipeResultStruct, usize)>) -> ItemStack {
    match found {
        Some((result, _)) => ItemStack { item: result.id, item_count: result.count },
        None => ItemStack::empty(),
    }
}

/// A stack with one item less, unless it is empty.
pub open spec fn take_one(stack: ItemStack) -> ItemStack {
    if stack.is_empty() {
        stack
    } else {
        ItemStack { item_count: (stack.item_count - 1) as u8, ..stack }
    }
}

/// A grid after its stacks have been used once.
pub open spec fn take_from_all(grid: Grid) -> Grid {
    Grid { stacks: grid.stacks.map_values(|stack: ItemStack| take_one(stack)), ..grid }
}

/// The smallest count among the stacks in the first `n` cells; the largest count there can be, if
/// these are empty.
pub open spec fn smallest_count(stacks: Seq<ItemStack>, n: int) -> int
    decreases n,
{
    if n <= 0 {
        u8::MAX as int
    } else {
        let before = smallest_count(stacks, n - 1);
        if !stacks[n - 1].is_empty() && stacks[n - 1].item_count < before {
            stacks[n - 1].item_count as int
        } else {
            before
        }
    }
}

/// Takes one item from a stack, unless it is empty.
pub fn use_one(stack: ItemStack) -> (left: ItemStack)
    ensures
        left == take_one(stack),
{
    if stack.is_empty() {
        stack
    } else {
        ItemStack { item: stack.item, item_count: stack.item_count - 1 }
    }
}

/// A slot update that is to be sent on.
#[derive(Clone, Copy, Debug)]
pub struct SlotUpdate {
    pub slot: u8,
    pub stack: ItemStack,
}

/// The result slot of a workstation. It takes no stacks: whatever is done to it only makes it show
/// anew what its input grid can be made into.
pub struct ResultSlot {
    pub inventory: WorkstationInventory,
    pub id: u8,
    pub result: ItemStack,
    pub recipe_cache: RecipeCache,
}

impl ResultSlot {
    /// The recipes that the slot goes by.
    pub open spec fn book(&self) -> RecipeBook {
        self.recipe_cache.book()
    }

    /// The place in the book of the recipe that matched last.
    pub open spec fn cached(&self) -> Option<usize> {
        self.recipe_cache.cached()
    }

    pub open spec fn wf(&self) -> bool {
        &&& self.inventory.wf()
        &&& self.recipe_cache.wf()
    }

    /// The recipe for the stacks in the input grid, with what it yields.
    pub open spec fn matched(&self) -> Option<(RecipeResultStruct, usize)> {
        find_match(self.book(), self.inventory@, self.cached())
    }

    /// The recipes of the book that are reached can be held against the input grid.
    pub open spec fn can_match(&self) -> bool {
        search_defined(self.book(), self.inventory@, self.cached())
    }

    /// `after` is `self` once it has been made to show what its input grid can be made into.
    pub open spec fn refilled(&self, after: &ResultSlot) -> bool {
        &&& after.inventory == self.inventory
        &&& after.id == self.id
        &&& after.book() == self.book()
        &&& after.cached() == remembered(self.matched(), self.cached())
        &&& after.result == output_of(self.matched())
    }

    /// A slot that shows nothing and remembers no recipe.
    pub fn new(inventory: WorkstationInventory, book: RecipeBook) -> (slot: ResultSlot)
        requires
            inventory.wf(),
        ensures
            slot.wf(),
            slot.inventory == inventory,
            slot.id == 0,
            slot.result == ItemStack::empty(),
            slot.book() == book,
            slot.cached() is None,
    {
        ResultSlot {
            inventory,
            id: 0,
            result: ItemStack::empty(),
            recipe_cache: RecipeCache::new(book),
        }
    }

    /// Whether the recipes of the book that are reached can be held against the input grid.
    pub fn is_matchable(&self) -> (matchable: bool)
        requires
            self.wf(),
        ensures
            matchable == self.can_match(),
    {
        search(self.recipe_cache.get_book(), &self.inventory, self.recipe_cache.get()).is_some()
    }

    /// Matches the stacks in the input grid with a recipe and returns what it yields.
    ///
    /// If no recipe matches, returns `None`.
    pub fn match_recipe(&mut self) -> (found: Option<
        (RecipeResultStruct, &'static CraftingRecipeTypes),
    >)
        requires
            old(self).wf(),
            old(self).can_match(),
        ensures
            final(self).wf(),
            final(self).inventory == old(self).inventory,
            final(self).id == old(self).id,
            final(self).result == old(self).result,
            final(self).book() == old(self).book(),
            final(self).cached() == remembered(old(self).matched(), old(self).cached()),
            final(self).can_match(),
            found is Some <==> old(self).matched() is Some,
            found is Some ==> {
                let (result, i) = old(self).matched().unwrap();
                found.unwrap() == (result, &old(self).book().recipes@[i as int])
            },
    {
        let book: RecipeBook = self.recipe_cache.get_book();
        let cached: Option<usize> = self.recipe_cache.get();
        proof {
            lemma_searchable_again(book, self.inventory@, cached);
        }
        match search(book, &self.inventory, cached) {
            Some(Some((result, i))) => {
                proof {
                    lemma_match_in_book(book, self.inventory@, cached);
                }
                self.recipe_cache.set(i);
                Some((result, &book.recipes[i]))
            },
            _ => None,
        }
    }

    /// Shows anew what the input grid can be made into.
    pub fn refill_output(&mut self) -> (output: ItemStack)
        requires
            old(self).wf(),
            old(self).can_match(),
        ensures
            final(self).wf(),
            old(self).refilled(final(self)),
            final(self).can_match(),
            output == output_of(old(self).matched()),
    {
        let output: ItemStack = match self.match_recipe() {
            Some((result, _)) => ItemStack::from(&result),
            None => ItemStack::empty(),
        };
        self.result = output;
        output
    }

    pub fn get_inventory(&self) -> (inventory: &WorkstationInventory)
        ensures
            *inventory == self.inventory,
    {
        &self.inventory
    }

    pub fn get_index(&self) -> (index: usize)
        ensures
            index == RESULT_SLOT_INDEX,
    {
        RESULT_SLOT_INDEX
    }

    /// Sets the number of the slot. Only its lowest byte is kept.
    pub fn set_id(&mut self, id: usize)
        ensures
            final(self).id == id % 256,
            final(self).inventory == old(self).inventory,
            final(self).result == old(self).result,
            final(self).book() == old(self).book(),
            final(self).cached() == old(self).cached(),
    {
        assert(id as u8 == id % 256) by (bit_vector);
        self.id = id as u8;
    }

    /// Shows anew what the input grid can be made into, once a stack has been moved out.
    pub fn on_quick_move_crafted(&mut self, _stack: ItemStack, _stack_prev: ItemStack)
        requires
            old(self).wf(),
            old(self).can_match(),
        ensures
            final(self).wf(),
            old(self).refilled(final(self)),
            final(self).can_match(),
    {
        self.refill_output();
    }

    /// Uses up one item of each stack in the input grid.
    pub fn on_take_item(&mut self, _stack: &ItemStack)
        requires
            old(self).wf(),
        ensures
            final(self).wf(),
            final(self).inventory@ == take_from_all(old(self).inventory@),
            final(self).inventory.is_dirty(),
            final(self).id == old(self).id,
            final(self).result == old(self).result,
            final(self).book() == old(self).book(),
            final(self).cached() == old(self).cached(),
    {
        let size: usize = self.inventory.size();
        let mut i: usize = 0;
        while i < size
            invariant
                i <= size,
                size == old(self).inventory@.stacks.len(),
                self.inventory@.stacks.len() == size,
                self.inventory@.width == old(self).inventory@.width,
                self.inventory@.height == old(self).inventory@.height,
                forall|j: int|
                    0 <= j < i ==> #[trigger] self.inventory@.stacks[j] == take_one(
                        old(self).inventory@.stacks[j],
                    ),
                forall|j: int|
                    i <= j < size ==> #[trigger] self.inventory@.stacks[j] == old(
                        self,
                    ).inventory@.stacks[j],
                self.id == old(self).id,
                self.result == old(self).result,
                self.recipe_cache == old(self).recipe_cache,
            decreases size - i,
        {
            let stack: ItemStack = self.inventory.get_stack(i);
            self.inventory.set_stack(i, use_one(stack));
            i += 1;
        }
        assert(self.inventory@ =~= take_from_all(old(self).inventory@));
        self.mark_dirty();
    }

    /// Nothing can be put into the slot.
    pub fn can_insert(&self, _stack: &ItemStack) -> (insertable: bool)
        ensures
            !insertable,
    {
        false
    }

    pub fn get_stack(&self) -> (stack: &ItemStack)
        ensures
            *stack == self.result,
    {
        &self.result
    }

    pub fn get_cloned_stack(&self) -> (stack: ItemStack)
        ensures
            stack == self.result,
    {
        self.result
    }

    pub fn has_stack(&self) -> (has: bool)
        ensures
            has == !self.result.is_empty(),
    {
        !self.result.is_empty()
    }

    /// Shows anew what the input grid can be made into. The given stack is ignored.
    pub fn set_stack(&mut self, _stack: ItemStack)
        requires
            old(self).wf(),
            old(self).can_match(),
        ensures
            final(self).wf(),
            old(self).refilled(final(self)),
            final(self).can_match(),
    {
        self.refill_output();
    }

    /// Shows anew what the input grid can be made into. The given stacks are ignored.
    pub fn set_stack_prev(&mut self, _stack: ItemStack, _previous_stack: ItemStack)
        requires
            old(self).wf(),
            old(self).can_match(),
        ensures
            final(self).wf(),
            old(self).refilled(final(self)),
            final(self).can_match(),
    {
        self.refill_output();
    }

    /// Notes that the input grid has changed.
    pub fn mark_dirty(&mut self)
        ensures
            final(self).inventory@ == old(self).inventory@,
            final(self).inventory.is_dirty(),
            final(self).id == old(self).id,
            final(self).result == old(self).result,
            final(self).book() == old(self).book(),
            final(self).cached() == old(self).cached(),
    {
        self.inventory.mark_dirty();
    }

    /// How often the input grid can be used before a stack in it runs out.
    pub fn get_max_item_count(&self) -> (count: u8)
        ensures
            count == smallest_count(
                self.inventory@.stacks,
                self.inventory@.stacks.len() as int,
            ),
    {
        let mut count: u8 = u8::MAX;
        let size: usize = self.inventory.size();
        let mut i: usize = 0;
        while i < size
            invariant
                i <= size,
                size == self.inventory@.stacks.len(),
                count == smallest_count(self.inventory@.stacks, i as int),
            decreases size - i,
        {
            let stack = self.inventory.get_stack(i);
            if !stack.is_empty() && stack.item_count < count {
                count = stack.item_count;
            }
            i += 1;
        }
        count
    }

    /// What can be taken from the slot: all that it shows, whatever amount is asked for.
    pub fn take_stack(&self, _amount: u8) -> (stack: ItemStack)
        ensures
            stack == if self.result.is_empty() {
                ItemStack::empty()
            } else {
                self.result
            },
    {
        if self.has_stack() {
            self.result
        } else {
            ItemStack::empty()
        }
    }

    /// Reacts to a change of a slot of the screen. When the slot is the result slot or one of the
    /// input grid, the result is shown anew and is to be sent on as the stack of the first slot.
    pub fn on_slot_update(&mut self, slot: u8, _stack: ItemStack) -> (update: Option<SlotUpdate>)
        requires
            old(self).wf(),
            slot <= old(self).inventory@.width * old(self).inventory@.height ==> old(
                self,
            ).can_match(),
        ensures
            final(self).wf(),
            slot <= old(self).inventory@.width * old(self).inventory@.height ==> {
                &&& old(self).refilled(final(self))
                &&& final(self).can_match()
                &&& update == Some(
                    SlotUpdate { slot: 0, stack: output_of(old(self).matched()) },
                )
            },
            slot > old(self).inventory@.width * old(self).inventory@.height ==> {
                &&& *final(self) == *old(self)
                &&& update is None
            },
    {
        proof {
            self.inventory@.lemma_size();
        }
        let inputs: usize = self.inventory.get_width() * self.inventory.get_height();
        if slot as usize <= inputs {
            let stack = self.refill_output();
            Some(SlotUpdate { slot: 0, stack })
        } else {
            None
        }
    }
}

} // verus!
