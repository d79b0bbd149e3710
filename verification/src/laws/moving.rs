//! Laws of quick moves.
use crate::item::ItemStack;
use crate::quick_move::{
    first_target, second_target, Action, Event, QuickMove, Target, END_PLAYER, FIRST_INPUT,
    FIRST_PLAYER, RESULT_SLOT,
};
use vstd::prelude::*;

verus! {

/// What the slots of a screen answer in the course of a move: whether the slot has a stack, that
/// stack, and what comes of inserting it into the first and into the second target.
pub struct Answers {
    pub has_stack: bool,
    pub stack: ItemStack,
    pub first_moved: bool,
    pub first_left: ItemStack,
    pub second_moved: bool,
    pub second_left: ItemStack,
}

impl Answers {
    /// The answer to what a move asks for.
    pub open spec fn event(self, m: QuickMove) -> Event {
        match m {
            QuickMove::Start { .. } => Event::HasStack(self.has_stack),
            QuickMove::Stacked { .. } => Event::Stack(self.stack),
            QuickMove::Inserting { .. } => Event::Inserted {
                moved: self.first_moved,
                stack: self.first_left,
            },
            QuickMove::Retrying { .. } => Event::Inserted {
                moved: self.second_moved,
                stack: self.second_left,
            },
            _ => Event::Done,
        }
    }

    /// The second target is tried.
    pub open spec fn retries(self, slot: int) -> bool {
        self.has_stack && !self.first_moved && second_target(slot) is Some
    }

    /// Something could be inserted.
    pub open spec fn moved(self, slot: int) -> bool {
        self.has_stack && (self.first_moved || (self.retries(slot) && self.second_moved))
    }

    /// What is left of the stack.
    pub open spec fn left(self) -> ItemStack {
        if self.first_moved {
            self.first_left
        } else {
            self.second_left
        }
    }

    /// The stack has changed.
    pub open spec fn changed(self, slot: int) -> bool {
        self.moved(slot) && self.left().item_count != self.stack.item_count
    }
}

/// What a move asks for, one after the other, in at most `steps` steps.
pub open spec fn run(answers: Answers, m: QuickMove, steps: nat) -> Seq<Action>
    decreases steps,
{
    if steps == 0 || m is Finished {
        seq![m.spec_action()]
    } else {
        seq![m.spec_action()] + run(
            answers,
            m.spec_resume(answers.event(m)),
            (steps - 1) as nat,
        )
    }
}

pub open spec fn only_if(condition: bool, action: Action) -> Seq<Action> {
    if condition {
        seq![action]
    } else {
        seq![]
    }
}

/// What a move of the stack of a slot asks for.
pub open spec fn actions_of_move(answers: Answers, slot: int) -> Seq<Action> {
    let left = answers.left();
    let moved = answers.moved(slot);
    let changed = answers.changed(slot);
    let crafted = changed && slot == RESULT_SLOT;
    seq![Action::AskHasStack] + only_if(answers.has_stack, Action::AskStack) + only_if(
        answers.has_stack,
        Action::InsertItem(first_target(slot)),
    ) + only_if(
        answers.retries(slot),
        Action::InsertItem(second_target(slot).unwrap()),
    ) + only_if(
        moved && left.is_empty(),
        Action::SetStackPrev { stack: ItemStack::empty(), previous: answers.stack },
    ) + only_if(moved && !left.is_empty(), Action::MarkDirty) + only_if(
        changed,
        Action::OnTakeItem { stack: left },
    ) + only_if(
        crafted,
        Action::OnQuickMoveCrafted { stack: left, previous: answers.stack },
    ) + only_if(crafted && !left.is_empty(), Action::DropItem { stack: left }) + seq![
        Action::Return {
            stack: if changed {
                answers.stack
            } else {
                ItemStack::empty()
            },
        },
    ]
}

/// A move asks for nothing but this, in this order, and ends after eight steps at most: it looks
/// for a stack, inserts it into the first target and, failing that, into the second; if that moved
/// anything, it clears the slot or marks it as changed; and if the count of the stack changed, it
/// reports what was taken, has the result slot show its result anew, drops what is left of a
/// result, and answers with the stack as it was before. In all other cases it answers with the
/// empty stack.
pub proof fn law_quick_move(answers: Answers, slot: i32)
    ensures
        run(answers, QuickMove::Start { slot }, 8) =~= actions_of_move(answers, slot as int),
{
    reveal_with_fuel(run, 9);
    let m0 = QuickMove::Start { slot };
    let m1 = m0.spec_resume(answers.event(m0));
    let m2 = m1.spec_resume(answers.event(m1));
    let m3 = m2.spec_resume(answers.event(m2));
    let m4 = m3.spec_resume(answers.event(m3));
    let m5 = m4.spec_resume(answers.event(m4));
    let m6 = m5.spec_resume(answers.event(m5));
    let m7 = m6.spec_resume(answers.event(m6));
    if !answers.has_stack {
        assert(m1 is Finished);
    } else if answers.first_moved {
        assert(m3 is Moved);
        if !answers.changed(slot as int) {
            assert(m4 is Finished);
        } else if slot != RESULT_SLOT {
            assert(m5 is Finished);
        } else if answers.left().is_empty() {
            assert(m6 is Finished);
        } else {
            assert(m7 is Finished);
        }
    } else if answers.retries(slot as int) {
        assert(m3 is Retrying);
        if !answers.second_moved {
            assert(m4 is Finished);
        } else if !answers.changed(slot as int) {
            assert(m5 is Finished);
        } else {
            assert(m6 is Finished);
        }
    } else {
        assert(m3 is Finished);
    }
}

/// Each answer fits what is asked for, and a move that is well formed stays so.
pub proof fn law_answers_fit(answers: Answers, m: QuickMove)
    requires
        m.wf(),
        m !is Finished,
    ensures
        m.awaits(answers.event(m)),
        m.spec_resume(answers.event(m)).wf(),
{
}

/// A target is made of slots of the input grid or of the player, and never takes in the slot that
/// the stack comes from; the two targets of a slot have no slot in common.
pub proof fn law_targets(slot: int, other: int)
    requires
        slot >= 0,
    ensures
        ({
            let first = first_target(slot);
            &&& FIRST_INPUT <= first.start < first.end <= END_PLAYER
            &&& !(first.start <= slot < first.end)
            &&& second_target(slot) matches Some(second) ==> {
                &&& FIRST_PLAYER <= second.start < second.end <= END_PLAYER
                &&& !(second.start <= slot < second.end)
                &&& !(first.start <= other < first.end && second.start <= other < second.end)
            }
        }),
{
}

/// A result goes to the slots of the player, from ten to before forty-six, the last one first. What
/// the player has goes to the nine slots of the input grid, the first one first, and all else goes
/// to the slots of the player, the first one first.
pub proof fn law_first_targets(slot: int)
    ensures
        ({
            let target = first_target(slot);
            &&& target.from_last <==> slot == 0
            &&& 10 <= slot < 46 ==> target.start == 1 && target.end == 10
            &&& slot < 10 || slot >= 46 ==> target.start == 10 && target.end == 46
        }),
{
}

/// Exactly the slots of the player have a second target. It is the other part of the player's
/// inventory, the first slot first: for each slot of the main part the whole hotbar, from
/// thirty-seven to before forty-six, and for each slot of the hotbar the whole main part, from ten
/// to before thirty-seven.
pub proof fn law_second_targets(slot: int)
    ensures
        second_target(slot) is Some <==> 10 <= slot < 46,
        second_target(slot) matches Some(target) ==> {
            &&& !target.from_last
            &&& slot < 37 ==> target.start == 37 && target.end == 46
            &&& slot >= 37 ==> target.start == 10 && target.end == 37
        },
{
}

/// Two slots of the same part of the screen are moved alike: to the same targets, in the same
/// order.
pub proof fn law_slots_of_one_part_move_alike(slot: int, other: int)
    requires
        (slot == 0 && other == 0) || (1 <= slot < 10 && 1 <= other < 10) || (10 <= slot < 37 && 10
            <= other < 37) || (37 <= slot < 46 && 37 <= other < 46) || (46 <= slot && 46 <= other),
    ensures
        first_target(slot) == first_target(other),
        second_target(slot) == second_target(other),
{
}

/// A move with a stack that finds room nowhere changes nothing: it asks for insertions alone and
/// answers with the empty stack.
pub proof fn law_move_without_room(answers: Answers, slot: i32)
    requires
        answers.has_stack,
        !answers.first_moved,
        !answers.second_moved,
    ensures
        ({
            let actions = run(answers, QuickMove::Start { slot }, 8);
            &&& actions.len() == if 10 <= slot < 46 {
                5int
            } else {
                4int
            }
            &&& actions[0] is AskHasStack
            &&& actions[1] is AskStack
            &&& forall|i: int| 2 <= i < actions.len() - 1 ==> #[trigger] actions[i] is InsertItem
            &&& actions.last() matches Action::Return { stack } && stack.item_count == 0
                && stack.item@ == "minecraft:air"@
        }),
{
    law_quick_move(answers, slot);
}

/// The whole course of a move, from a slot that has a stack, when an insertion changed the count of
/// the stack: it looks at the slot, inserts the stack, has the slot cleared if nothing is left of
/// the stack and marked as changed if not, and reports what is left as taken. From the result slot
/// it goes on to have the result shown anew, and to drop what is left. It answers with the stack as
/// it was.
pub proof fn law_move_with_room(answers: Answers, slot: i32)
    requires
        answers.has_stack,
        answers.first_moved || (10 <= slot < 46 && answers.second_moved),
        answers.first_moved ==> answers.first_left.item_count != answers.stack.item_count,
        !answers.first_moved ==> answers.second_left.item_count != answers.stack.item_count,
    ensures
        ({
            let actions = run(answers, QuickMove::Start { slot }, 8);
            let left = if answers.first_moved {
                answers.first_left
            } else {
                answers.second_left
            };
            let gone = left.item_count == 0 || left.item@ == "minecraft:air"@;
            let k = if answers.first_moved {
                3int
            } else {
                4int
            };
            &&& actions[0] is AskHasStack
            &&& actions[1] is AskStack
            &&& forall|i: int| 2 <= i < k ==> #[trigger] actions[i] is InsertItem
            &&& gone ==> {
                &&& actions[k] is SetStackPrev
                &&& actions[k]->SetStackPrev_stack.item_count == 0
                &&& actions[k]->SetStackPrev_stack.item@ == "minecraft:air"@
                &&& actions[k]->SetStackPrev_previous == answers.stack
            }
            &&& !gone ==> actions[k] is MarkDirty
            &&& actions[k + 1] == (Action::OnTakeItem { stack: left })
            &&& actions.last() == (Action::Return { stack: answers.stack })
            &&& slot != 0 ==> actions.len() == k + 3
            &&& slot == 0 ==> {
                &&& actions[k + 2] == (Action::OnQuickMoveCrafted {
                    stack: left,
                    previous: answers.stack,
                })
                &&& gone ==> actions.len() == k + 4
                &&& !gone ==> actions.len() == k + 5 && actions[k + 3] == (Action::DropItem {
                    stack: left,
                })
            }
        }),
{
    law_quick_move(answers, slot);
}

/// An insertion that leaves the count of the stack as it was moves nothing: the slot is cleared or
/// marked as changed, nothing is reported as taken, and the move answers with the empty stack.
pub proof fn law_move_of_nothing(answers: Answers, slot: i32)
    requires
        answers.has_stack,
        answers.first_moved || (10 <= slot < 46 && answers.second_moved),
        answers.first_moved ==> answers.first_left.item_count == answers.stack.item_count,
        !answers.first_moved ==> answers.second_left.item_count == answers.stack.item_count,
    ensures
        ({
            let actions = run(answers, QuickMove::Start { slot }, 8);
            let left = if answers.first_moved {
                answers.first_left
            } else {
                answers.second_left
            };
            let k = if answers.first_moved {
                3int
            } else {
                4int
            };
            &&& actions.len() == k + 2
            &&& actions[k] is SetStackPrev <==> left.item_count == 0 || left.item@
                == "minecraft:air"@
            &&& actions[k] is MarkDirty <==> left.item_count != 0 && left.item@
                != "minecraft:air"@
            &&& actions[k + 1] matches Action::Return { stack } && stack.item_count == 0
                && stack.item@ == "minecraft:air"@
        }),
{
    law_quick_move(answers, slot);
}

/// Nothing is asked of a slot without a stack, and the move answers with the empty stack.
pub proof fn law_move_from_an_empty_slot(answers: Answers, slot: i32)
    requires
        !answers.has_stack,
    ensures
        ({
            let actions = run(answers, QuickMove::Start { slot }, 8);
            &&& actions.len() == 2
            &&& actions[0] is AskHasStack
            &&& actions[1] matches Action::Return { stack } && stack.item_count == 0
                && stack.item@ == "minecraft:air"@
        }),
{
    law_quick_move(answers, slot);
}

/// The insertions that a move asks for go to the two targets of its slot, the first one first.
pub proof fn law_moves_go_to_the_targets(answers: Answers, slot: i32)
    requires
        answers.has_stack,
    ensures
        ({
            let actions = run(answers, QuickMove::Start { slot }, 8);
            &&& actions[2] == Action::InsertItem(
                if slot == 0 {
                    Target { start: 10, end: 46, from_last: true }
                } else if 10 <= slot < 46 {
                    Target { start: 1, end: 10, from_last: false }
                } else {
                    Target { start: 10, end: 46, from_last: false }
                },
            )
            &&& !answers.first_moved && 10 <= slot < 37 ==> actions[3] == Action::InsertItem(
                Target { start: 37, end: 46, from_last: false },
            )
            &&& !answers.first_moved && 37 <= slot < 46 ==> actions[3] == Action::InsertItem(
                Target { start: 10, end: 37, from_last: false },
            )
        }),
{
    law_quick_move(answers, slot);
}

/// What comes of the workstation goes to the player, and what the player has goes to the input grid
/// before anywhere else.
pub proof fn law_first_target_changes_sides(slot: int)
    requires
        slot >= 0,
    ensures
        slot < FIRST_PLAYER ==> first_target(slot).start == FIRST_PLAYER && first_target(slot).end
            == END_PLAYER,
        FIRST_PLAYER <= slot < END_PLAYER ==> first_target(slot).start == FIRST_INPUT
            && first_target(slot).end == FIRST_PLAYER,
{
}

} // verus!
