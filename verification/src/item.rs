//! Items and stacks of items.
use vstd::prelude::*;
use vstd::utf8::encode_utf8_decode_utf8;

verus! {

/// Registry name of the item that stands for "nothing".
pub const AIR: &'static str = "minecraft:air";

/// Whether two registry names are the same name.
pub fn same_name(a: &str, b: &str) -> (same: bool)
    ensures
        same == (a@ == b@),
{
    let left = a.as_bytes();
    let right = b.as_bytes();
    proof {
        encode_utf8_decode_utf8(a@);
        encode_utf8_decode_utf8(b@);
    }
    if left.len() != right.len() {
        return false;
    }
    let mut i: usize = 0;
    while i < left.len()
        invariant
            i <= left@.len(),
            left@.len() == right@.len(),
            left@ == vstd::utf8::encode_utf8(a@),
            right@ == vstd::utf8::encode_utf8(b@),
            forall|j: int| 0 <= j < i ==> left@[j] == right@[j],
        decreases left@.len() - i,
    {
        if left[i] != right[i] {
            return false;
        }
        i += 1;
    }
    assert(left@ =~= right@);
    true
}

/// A number of items of one kind. The kind is given by its registry name.
#[derive(Clone, Copy, Debug)]
pub struct ItemStack {
    pub item: &'static str,
    pub item_count: u8,
}

impl ItemStack {
    /// A stack is empty when it counts no items, or when its item is air.
    pub open spec fn spec_is_empty(self) -> bool {
        self.item_count == 0 || self.item@ == AIR@
    }

    /// The stack that an empty slot holds.
    pub open spec fn spec_empty() -> ItemStack {
        ItemStack { item: AIR, item_count: 0 }
    }

    pub fn new(item_count: u8, item: &'static str) -> (stack: ItemStack)
        ensures
            stack == (ItemStack { item, item_count }),
    {
        ItemStack { item, item_count }
    }

    #[verifier::when_used_as_spec(spec_empty)]
    pub fn empty() -> (stack: ItemStack)
        ensures
            stack == ItemStack::spec_empty(),
    {
        ItemStack { item: AIR, item_count: 0 }
    }

    #[verifier::when_used_as_spec(spec_is_empty)]
    pub fn is_empty(self) -> (empty: bool)
        ensures
            empty == self.spec_is_empty(),
    {
        self.item_count == 0 || same_name(self.item, AIR)
    }
}

} // verus!
