//! Moving the stack of one slot of a screen to where it belongs, at one click.
//!
//! The slots of the screen are looked at and changed by others. A move is run by performing the
//! action that it asks for and handing back what came of it, until it has finished.
use crate::item::ItemStack;
use vstd::prelude::*;

verus! {

/// The result slot.
pub const RESULT_SLOT: i32 = 0;

/// The first slot of the input grid.
pub const FIRST_INPUT: i32 = 1;

/// The first slot of the player's inventory, just after the input grid.
pub const FIRST_PLAYER: i32 = 10;

/// The first slot of the player's hotbar, just after the main part of the inventory.
pub const FIRST_HOTBAR: i32 = 37;

/// The end of the player's inventory.
pub const END_PLAYER: i32 = 46;

/// Where a stack is to be inserted: into the slots from `start` to before `end`, the last one
/// first if `from_last` is set.
#[derive(Clone, Copy, Debug, PartialEq, Eq, Structural)]
pub struct Target {
    pub start: i32,
    pub end: i32,
    pub from_last: bool,
}

/// What the run of a move has to do next.
#[derive(Clone, Copy, Debug)]
pub enum Action {
    /// Find out whether the slot has a stack; answer with `Event::HasStack`.
    AskHasStack,
    /// Find out the stack of the slot; answer with `Event::Stack`.
    AskStack,
    /// Insert the stack of the slot into other slots; answer with `Event::Inserted`.
    InsertItem(Target),
    /// Set the stack of the slot; answer with `Event::Done`.
    SetStackPrev { stack: ItemStack, previous: ItemStack },
    /// Mark the slot as changed; answer with `Event::Done`.
    MarkDirty,
    /// Tell the slot what was taken from it; answer with `Event::Done`.
    OnTakeItem { stack: ItemStack },
    /// Tell the slot that what it had made was moved; answer with `Event::Done`.
    OnQuickMoveCrafted { stack: ItemStack, previous: ItemStack },
    /// Let the player drop a stack; answer with `Event::Done`.
    DropItem { stack: ItemStack },
    /// Nothing more: the move answers with this stack.
    Return { stack: ItemStack },
}

/// What came of an action.
#[derive(Clone, Copy, Debug)]
pub enum Event {
    HasStack(bool),
    Stack(ItemStack),
    /// Whether anything was inserted, and what then is the stack of the slot.
    Inserted { moved: bool, stack: ItemStack },
    Done,
}

/// A move under way.
#[derive(Clone, Copy, Debug)]
pub enum QuickMove {
    Start { slot: i32 },
    Stacked { slot: i32 },
    Inserting { slot: i32, previous: ItemStack },
    Retrying { slot: i32, previous: ItemStack },
    Moved { slot: i32, previous: ItemStack, stack: ItemStack },
    Taking { slot: i32, previous: ItemStack, stack: ItemStack },
    Crafted { previous: ItemStack, stack: ItemStack },
    Dropping { previous: ItemStack, stack: ItemStack },
    Finished { stack: ItemStack },
}

/// Where the stack of a slot is inserted first: a result or an input goes to the player, and what
/// the player has goes to the input grid.
pub open spec fn first_target(slot: int) -> Target {
    if slot == RESULT_SLOT {
        Target { start: FIRST_PLAYER, end: END_PLAYER, from_last: true }
    } else if FIRST_PLAYER <= slot < END_PLAYER {
        Target { start: FIRST_INPUT, end: FIRST_PLAYER, from_last: false }
    } else {
        Target { start: FIRST_PLAYER, end: END_PLAYER, from_last: false }
    }
}

/// Where the stack of a slot is inserted if it does not go to the first target: what the player
/// has changes between main inventory and hotbar.
pub open spec fn second_target(slot: int) -> Option<Target> {
    if FIRST_PLAYER <= slot < FIRST_HOTBAR {
        Some(Target { start: FIRST_HOTBAR, end: END_PLAYER, from_last: false })
    } else if FIRST_HOTBAR <= slot < END_PLAYER {
        Some(Target { start: FIRST_PLAYER, end: FIRST_HOTBAR, from_last: false })
    } else {
        None
    }
}

impl QuickMove {
    /// What the move asks for.
    pub open spec fn spec_action(self) -> Action {
        match self {
            QuickMove::Start { .. } => Action::AskHasStack,
            QuickMove::Stacked { .. } => Action::AskStack,
            QuickMove::Inserting { slot, .. } => Action::InsertItem(first_target(slot as int)),
            QuickMove::Retrying { slot, .. } => Action::InsertItem(
                second_target(slot as int).unwrap(),
            ),
            QuickMove::Moved { previous, stack, .. } => if stack.is_empty() {
                Action::SetStackPrev { stack: ItemStack::empty(), previous }
            } else {
                Action::MarkDirty
            },
            QuickMove::Taking { stack, .. } => Action::OnTakeItem { stack },
            QuickMove::Crafted { previous, stack } => Action::OnQuickMoveCrafted {
                stack,
                previous,
            },
            QuickMove::Dropping { stack, .. } => Action::DropItem { stack },
            QuickMove::Finished { stack } => Action::Return { stack },
        }
    }

    /// A second insertion is under way only for slots that have a second target.
    pub open spec fn wf(self) -> bool {
        self matches QuickMove::Retrying { slot, .. } ==> second_target(slot as int) is Some
    }

    /// The event answers the action that the move asks for.
    pub open spec fn awaits(self, event: Event) -> bool {
        match self {
            QuickMove::Start { .. } => event is HasStack,
            QuickMove::Stacked { .. } => event is Stack,
            QuickMove::Inserting { .. } => event is Inserted,
            QuickMove::Retrying { .. } => event is Inserted,
            QuickMove::Finished { .. } => false,
            _ => event is Done,
        }
    }

    /// The move that answers with the empty stack.
    pub open spec fn nothing_moved() -> QuickMove {
        QuickMove::Finished { stack: ItemStack::empty() }
    }

    /// How the move goes on.
    pub open spec fn spec_resume(self, event: Event) -> QuickMove {
        match (self, event) {
            (QuickMove::Start { slot }, Event::HasStack(true)) => QuickMove::Stacked { slot },
            (QuickMove::Stacked { slot }, Event::Stack(previous)) => QuickMove::Inserting {
                slot,
                previous,
            },
            (QuickMove::Inserting { slot, previous }, Event::Inserted { moved, stack }) =>
                if moved {
                    QuickMove::Moved { slot, previous, stack }
                } else if second_target(slot as int) is Some {
                    QuickMove::Retrying { slot, previous }
                } else {
                    QuickMove::nothing_moved()
                },
            (QuickMove::Retrying { slot, previous }, Event::Inserted { moved: true, stack }) =>
                QuickMove::Moved { slot, previous, stack },
            (QuickMove::Moved { slot, previous, stack }, _) => if stack.item_count
                == previous.item_count {
                QuickMove::nothing_moved()
            } else {
                QuickMove::Taking { slot, previous, stack }
            },
            (QuickMove::Taking { slot, previous, stack }, _) => if slot == RESULT_SLOT {
                QuickMove::Crafted { previous, stack }
            } else {
                QuickMove::Finished { stack: previous }
            },
            (QuickMove::Crafted { previous, stack }, _) => if stack.is_empty() {
                QuickMove::Finished { stack: previous }
            } else {
                QuickMove::Dropping { previous, stack }
            },
            (QuickMove::Dropping { previous, .. }, _) => QuickMove::Finished { stack: previous },
            (QuickMove::Finished { stack }, _) => QuickMove::Finished { stack },
            _ => QuickMove::nothing_moved(),
        }
    }

    /// A move of the stack of `slot`.
    pub fn new(slot: i32) -> (quick_move: QuickMove)
        ensures
            quick_move == (QuickMove::Start { slot }),
            quick_move.wf(),
    {
        QuickMove::Start { slot }
    }

    /// Where the stack of a slot is inserted first.
    fn first(slot: i32) -> (target: Target)
        ensures
            target == first_target(slot as int),
    {
        if slot == RESULT_SLOT {
            Target { start: FIRST_PLAYER, end: END_PLAYER, from_last: true }
        } else if FIRST_PLAYER <= slot && slot < END_PLAYER {
            Target { start: FIRST_INPUT, end: FIRST_PLAYER, from_last: false }
        } else {
            Target { start: FIRST_PLAYER, end: END_PLAYER, from_last: false }
        }
    }

    /// Where the stack of a slot is inserted if it does not go to the first target.
    fn second(slot: i32) -> (target: Option<Target>)
        ensures
            target == second_target(slot as int),
    {
        if FIRST_PLAYER <= slot && slot < FIRST_HOTBAR {
            Some(Target { start: FIRST_HOTBAR, end: END_PLAYER, from_last: false })
        } else if FIRST_HOTBAR <= slot && slot < END_PLAYER {
            Some(Target { start: FIRST_PLAYER, end: FIRST_HOTBAR, from_last: false })
        } else {
            None
        }
    }

    /// What the move asks for.
    pub fn action(self) -> (action: Action)
        requires
            self.wf(),
        ensures
            action == self.spec_action(),
    {
        match self {
            QuickMove::Start { .. } => Action::AskHasStack,
            QuickMove::Stacked { .. } => Action::AskStack,
            QuickMove::Inserting { slot, .. } => Action::InsertItem(QuickMove::first(slot)),
            QuickMove::Retrying { slot, .. } => match QuickMove::second(slot) {
                Some(target) => Action::InsertItem(target),
                None => Action::MarkDirty,
            },
            QuickMove::Moved { previous, stack, .. } => {
                if stack.is_empty() {
                    Action::SetStackPrev { stack: ItemStack::empty(), previous }
                } else {
                    Action::MarkDirty
                }
            },
            QuickMove::Taking { stack, .. } => Action::OnTakeItem { stack },
            QuickMove::Crafted { previous, stack } => Action::OnQuickMoveCrafted {
                stack,
                previous,
            },
            QuickMove::Dropping { stack, .. } => Action::DropItem { stack },
            QuickMove::Finished { stack } => Action::Return { stack },
        }
    }

    /// Goes on with what came of the action that the move asked for.
    pub fn resume(self, event: Event) -> (next: QuickMove)
        requires
            self.wf(),
            self.awaits(event),
        ensures
            next == self.spec_resume(event),
            next.wf(),
    {
        let nothing_moved = QuickMove::Finished { stack: ItemStack::empty() };
        match (self, event) {
            (QuickMove::Start { slot }, Event::HasStack(has)) => {
                if has {
                    QuickMove::Stacked { slot }
                } else {
                    nothing_moved
                }
            },
            (QuickMove::Stacked { slot }, Event::Stack(previous)) => QuickMove::Inserting {
                slot,
                previous,
            },
            (QuickMove::Inserting { slot, previous }, Event::Inserted { moved, stack }) => {
                if moved {
                    QuickMove::Moved { slot, previous, stack }
                } else if QuickMove::second(slot).is_some() {
                    QuickMove::Retrying { slot, previous }
                } else {
                    nothing_moved
                }
            },
            (QuickMove::Retrying { slot, previous }, Event::Inserted { moved, stack }) => {
                if moved {
                    QuickMove::Moved { slot, previous, stack }
                } else {
                    nothing_moved
                }
            },
            (QuickMove::Moved { slot, previous, stack }, _) => {
                if stack.item_count == previous.item_count {
                    nothing_moved
                } else {
                    QuickMove::Taking { slot, previous, stack }
                }
            },
            (QuickMove::Taking { slot, previous, stack }, _) => {
                if slot == RESULT_SLOT {
                    QuickMove::Crafted { previous, stack }
                } else {
                    QuickMove::Finished { stack: previous }
                }
            },
            (QuickMove::Crafted { previous, stack }, _) => {
                if stack.is_empty() {
                    QuickMove::Finished { stack: previous }
                } else {
                    QuickMove::Dropping { previous, stack }
                }
            },
            (QuickMove::Dropping { previous, .. }, _) => QuickMove::Finished { stack: previous },
            _ => nothing_moved,
        }
    }
}

} // verus!
