//! The grid of input stacks of a workstation.
use crate::item::ItemStack;
use vstd::prelude::*;

verus! {

/// What a workstation's input grid holds: its stacks, row after row, and its two dimensions.
#[verifier::ext_equal]
pub struct Grid {
    pub width: int,
    pub height: int,
    pub stacks: Seq<ItemStack>,
}

impl Grid {
    /// One stack for each cell.
    pub open spec fn wf(self) -> bool {
        &&& 0 <= self.width <= u8::MAX
        &&& 0 <= self.height <= u8::MAX
        &&& self.stacks.len() == self.width * self.height
    }

    /// A grid has at most 65025 cells, as each dimension fits a byte.
    pub proof fn lemma_size(self)
        requires
            self.wf(),
        ensures
            self.stacks.len() <= 65025,
    {
        assert(self.width * self.height <= 255 * 255) by (nonlinear_arith)
            requires
                0 <= self.width <= 255,
                0 <= self.height <= 255,
        ;
    }

    /// Whether cell `i` holds something.
    pub open spec fn occupied(self, i: int) -> bool {
        !self.stacks[i].is_empty()
    }
}

/// An input grid, by its dimensions. Each of them fits a byte.
pub trait RecipeInputInventory {
    spec fn columns(&self) -> int;

    spec fn rows(&self) -> int;

    fn get_width(&self) -> (width: usize)
        ensures
            width == self.columns(),
            width <= u8::MAX,
    ;

    fn get_height(&self) -> (height: usize)
        ensures
            height == self.rows(),
            height <= u8::MAX,
    ;
}

impl RecipeInputInventory for WorkstationInventory {
    open spec fn columns(&self) -> int {
        self@.width
    }

    open spec fn rows(&self) -> int {
        self@.height
    }

    fn get_width(&self) -> usize {
        self.width as usize
    }

    fn get_height(&self) -> usize {
        self.height as usize
    }
}

/// The input grid of a workstation, such as the three by three grid of a crafting table.
#[derive(Debug)]
pub struct WorkstationInventory {
    width: u8,
    height: u8,
    stacks: Vec<ItemStack>,
    dirty: bool,
}

impl View for WorkstationInventory {
    type V = Grid;

    closed spec fn view(&self) -> Grid {
        Grid { width: self.width as int, height: self.height as int, stacks: self.stacks@ }
    }
}

impl WorkstationInventory {
    pub open spec fn wf(&self) -> bool {
        self@.wf()
    }

    /// Whether a change of the stacks waits to be passed on.
    pub closed spec fn spec_is_dirty(&self) -> bool {
        self.dirty
    }

    /// A grid of `width` by `height` empty cells.
    pub fn new(width: u8, height: u8) -> (inventory: WorkstationInventory)
        ensures
            inventory.wf(),
            inventory@.width == width,
            inventory@.height == height,
            forall|i: int|
                0 <= i < inventory@.stacks.len() ==> #[trigger] inventory@.stacks[i]
                    == ItemStack::empty(),
            !inventory.spec_is_dirty(),
    {
        let mut stacks: Vec<ItemStack> = Vec::new();
        assert(0 <= width as int * height as int <= 255 * 255) by (nonlinear_arith)
            requires
                0 <= width <= 255,
                0 <= height <= 255,
        ;
        let size: usize = width as usize * height as usize;
        let mut i: usize = 0;
        while i < size
            invariant
                i <= size,
                stacks@.len() == i,
                forall|j: int| 0 <= j < i ==> #[trigger] stacks@[j] == ItemStack::empty(),
            decreases size - i,
        {
            stacks.push(ItemStack::empty());
            i += 1;
        }
        WorkstationInventory { width, height, stacks, dirty: false }
    }

    /// The number of cells.
    pub fn size(&self) -> (size: usize)
        ensures
            size == self@.stacks.len(),
    {
        self.stacks.len()
    }

    pub fn get_stack(&self, slot: usize) -> (stack: ItemStack)
        requires
            slot < self@.stacks.len(),
        ensures
            stack == self@.stacks[slot as int],
    {
        self.stacks[slot]
    }

    pub fn set_stack(&mut self, slot: usize, stack: ItemStack)
        requires
            slot < old(self)@.stacks.len(),
        ensures
            final(self)@ == (Grid {
                stacks: old(self)@.stacks.update(slot as int, stack),
                ..old(self)@
            }),
            final(self).spec_is_dirty() == old(self).spec_is_dirty(),
    {
        self.stacks.set(slot, stack);
    }

    #[verifier::when_used_as_spec(spec_is_dirty)]
    pub fn is_dirty(&self) -> (dirty: bool)
        ensures
            dirty == self.spec_is_dirty(),
    {
        self.dirty
    }

    /// Notes that the stacks have changed.
    pub fn mark_dirty(&mut self)
        ensures
            final(self)@ == old(self)@,
            final(self).spec_is_dirty(),
    {
        self.dirty = true;
    }

    /// Notes that the change has been passed on.
    pub fn clear_dirty(&mut self)
        ensures
            final(self)@ == old(self)@,
            !final(self).spec_is_dirty(),
    {
        self.dirty = false;
    }
}

} // verus!
