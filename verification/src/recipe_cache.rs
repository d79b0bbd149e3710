//! The recipes of a slot, with the one that matched last.
use crate::recipes::RecipeBook;
use crossbeam_utils::atomic::AtomicCell;
use vstd::prelude::*;

verus! {

/// `crossbeam_utils::atomic::AtomicCell`: one value that can be read and replaced.
#[verifier::external_type_specification]
#[verifier::external_body]
#[verifier::reject_recursive_types(T)]
pub struct ExAtomicCell<T>(AtomicCell<T>);

/// What a cell holds. The library writes a cell only through an exclusive reference, so what it
/// holds changes only there.
pub uninterp spec fn held_by(cell: AtomicCell<Option<usize>>) -> Option<usize>;

/// Calls `AtomicCell::new`: the new cell holds the given value.
#[verifier::external_body]
fn new_cell(value: Option<usize>) -> (cell: AtomicCell<Option<usize>>)
    ensures
        held_by(cell) == value,
{
    AtomicCell::new(value)
}

/// Calls `AtomicCell::load`: a load gives back what the cell holds. No store runs beside it, since
/// every store goes through an exclusive reference.
#[verifier::external_body]
fn load(cell: &AtomicCell<Option<usize>>) -> (value: Option<usize>)
    ensures
        value == held_by(*cell),
{
    cell.load()
}

/// Calls `AtomicCell::store`: the cell then holds the given value.
#[verifier::external_body]
fn store(cell: &mut AtomicCell<Option<usize>>, value: Option<usize>)
    ensures
        held_by(*final(cell)) == value,
{
    cell.store(value)
}

/// A book of recipes, and the place in it of the recipe that matched last.
pub struct RecipeCache {
    book: RecipeBook,
    last: AtomicCell<Option<usize>>,
}

impl RecipeCache {
    /// The recipes.
    pub closed spec fn book(&self) -> RecipeBook {
        self.book
    }

    /// The place of the recipe that matched last.
    pub closed spec fn cached(&self) -> Option<usize> {
        held_by(self.last)
    }

    /// What is remembered is a place in the book.
    pub open spec fn wf(&self) -> bool {
        self.cached() is Some ==> self.cached().unwrap() < self.book().recipes@.len()
    }

    /// A book of which no recipe has matched yet.
    pub fn new(book: RecipeBook) -> (cache: RecipeCache)
        ensures
            cache.wf(),
            cache.book() == book,
            cache.cached() is None,
    {
        RecipeCache { book, last: new_cell(None) }
    }

    pub fn get_book(&self) -> (book: RecipeBook)
        ensures
            book == self.book(),
    {
        self.book
    }

    /// The place of the recipe that matched last.
    pub fn get(&self) -> (cached: Option<usize>)
        ensures
            cached == self.cached(),
    {
        load(&self.last)
    }

    /// Remembers the recipe that matched last.
    pub fn set(&mut self, i: usize)
        requires
            i < old(self).book().recipes@.len(),
        ensures
            final(self).wf(),
            final(self).book() == old(self).book(),
            final(self).cached() == Some(i),
    {
        store(&mut self.last, Some(i));
    }
}

} // verus!
