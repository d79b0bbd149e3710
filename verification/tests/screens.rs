use pumpkin_inventory::crafting_table_screen_handler::CraftingTableScreenHandler;
use pumpkin_inventory::inventory::{RecipeInputInventory, WorkstationInventory};
use pumpkin_inventory::item::ItemStack;
use pumpkin_inventory::quick_move::{Action, Event, QuickMove, Target};
use pumpkin_inventory::recipes::{
    CraftingRecipeTypes, Ingredient, RecipeBook, RecipeResultStruct,
};
use pumpkin_inventory::screen_handler::{PlayerInventory, ScreenHandler, SlotKind, WindowType};
use pumpkin_inventory::workstation_screen_handler::{
    CraftingScreenHandler, WorkstationScreenHandler,
};

const BOOK: RecipeBook = RecipeBook { recipes: &[], decorated_pot_ingredients: &[] };

const STICK_BOOK: RecipeBook = RecipeBook {
    recipes: &[CraftingRecipeTypes::CraftingShapeless {
        ingredients: &[Ingredient { items: &["minecraft:stick"] }],
        result: RecipeResultStruct { id: "minecraft:splinter", count: 2 },
    }],
    decorated_pot_ingredients: &[],
};

fn player() -> PlayerInventory {
    PlayerInventory { screen_slots: (9..36).chain(0..9).collect() }
}

fn stack(count: u8) -> ItemStack {
    ItemStack::new(count, "minecraft:stick")
}

#[test]
fn a_crafting_table_shows_its_slots_in_order() {
    let handler = CraftingTableScreenHandler::new(7, &player(), BOOK);
    let behaviour = handler.get_behaviour();
    assert_eq!(behaviour.sync_id, 7);
    assert_eq!(behaviour.window_type, Some(WindowType::Crafting));
    assert_eq!(behaviour.slots.len(), 46);
    assert_eq!(behaviour.slots[0], SlotKind::Result(0));
    for cell in 0..9 {
        assert_eq!(behaviour.slots[cell + 1], SlotKind::Input { workstation: 0, cell });
    }
    assert_eq!(behaviour.slots[10], SlotKind::Player(9));
    assert_eq!(behaviour.slots[37], SlotKind::Player(0));
    assert_eq!(behaviour.slots[45], SlotKind::Player(8));
    assert_eq!(behaviour.listeners, vec![0]);
    assert_eq!(handler.crafting_inventory().size(), 9);
    assert!(!handler.get_result_slot(0).has_stack());
}

#[test]
fn a_workstation_has_as_many_groups_of_inputs_as_columns() {
    let handler =
        WorkstationScreenHandler::new(1, &player(), WindowType::Other(8), 3, 2, BOOK);
    let behaviour = handler.get_behaviour();
    assert_eq!(behaviour.window_type, Some(WindowType::Other(8)));
    let cells: Vec<SlotKind> = behaviour.slots[1..7].to_vec();
    let expected: Vec<SlotKind> = [0, 1, 3, 4, 6, 7]
        .into_iter()
        .map(|cell| SlotKind::Input { workstation: 0, cell })
        .collect();
    assert_eq!(cells, expected);
    assert_eq!(behaviour.slots.len(), 7 + 36);
    assert_eq!(handler.crafting_inventory().get_width(), 3);
    assert_eq!(handler.crafting_inventory().get_height(), 2);
}

#[test]
fn a_workstation_without_cells_has_its_result_slot() {
    let none = PlayerInventory { screen_slots: Vec::new() };
    let handler = WorkstationScreenHandler::new(1, &none, WindowType::Crafting, 0, 5, BOOK);
    assert_eq!(handler.get_behaviour().slots, vec![SlotKind::Result(0)]);
    assert_eq!(handler.get_behaviour().listeners, vec![0]);
}

#[test]
fn screens_can_be_extended() {
    let mut handler = CraftingTableScreenHandler::new(7, &player(), BOOK);
    handler.get_behaviour_mut().add_slot(SlotKind::Player(40));
    handler.get_behaviour_mut().add_listener(3);
    assert_eq!(handler.get_behaviour().slots.len(), 47);
    assert_eq!(handler.get_behaviour().listeners, vec![0, 3]);
    handler.get_result_slot_mut(0).set_id(5);
    assert_eq!(handler.get_result_slot(0).id, 5);
    let mut other = WorkstationScreenHandler::new(1, &player(), WindowType::Crafting, 2, 2, BOOK);
    other.get_result_slot_mut(0).set_id(6);
    assert_eq!(other.get_result_slot(0).id, 6);
    assert_eq!(other.get_behaviour_mut().slots.len(), 41);
}

#[test]
fn added_recipe_slots_stand_over_the_given_grid() {
    let mut handler =
        WorkstationScreenHandler::new(1, &player(), WindowType::Crafting, 1, 1, STICK_BOOK);
    assert_eq!(handler.get_behaviour().slots.len(), 38);
    let mut grid = WorkstationInventory::new(2, 2);
    grid.set_stack(3, stack(5));
    handler.add_recipe_slots(grid);
    let added: Vec<SlotKind> = handler.get_behaviour().slots[38..].to_vec();
    assert_eq!(
        added,
        vec![
            SlotKind::Result(1),
            SlotKind::Input { workstation: 1, cell: 0 },
            SlotKind::Input { workstation: 1, cell: 1 },
            SlotKind::Input { workstation: 1, cell: 2 },
            SlotKind::Input { workstation: 1, cell: 3 },
        ]
    );
    assert_eq!(handler.get_behaviour().listeners, vec![0, 38]);
    assert_eq!(handler.get_result_slots().len(), 2);
    let slot = handler.get_result_slot_mut(1);
    assert_eq!((slot.inventory.get_width(), slot.inventory.get_height()), (2, 2));
    assert_eq!(slot.inventory.get_stack(3).item_count, 5);
    assert!(slot.inventory.get_stack(0).is_empty());
    assert_eq!(slot.id, 0);
    assert!(!slot.has_stack());
    assert_eq!(slot.recipe_cache.get(), None);
    let output = slot.refill_output();
    assert_eq!((output.item, output.item_count), ("minecraft:splinter", 2));
    assert_eq!(handler.crafting_inventory().size(), 1);
    assert!(handler.get_result_slot_mut(0).refill_output().is_empty());
    assert_eq!(handler.get_book().recipes.len(), 1);
}

#[test]
fn a_crafting_table_can_be_given_another_grid() {
    let mut handler = CraftingTableScreenHandler::new(7, &player(), STICK_BOOK);
    handler.add_recipe_slots(WorkstationInventory::new(1, 1));
    let slots = &handler.get_behaviour().slots;
    assert_eq!(slots[46], SlotKind::Result(1));
    assert_eq!(slots[47], SlotKind::Input { workstation: 1, cell: 0 });
    assert_eq!(slots[9], SlotKind::Input { workstation: 0, cell: 8 });
    assert_eq!(handler.get_result_slot(1).get_inventory().size(), 1);
    assert_eq!(handler.crafting_inventory().size(), 9);
}

struct Answers {
    has_stack: bool,
    stack: ItemStack,
    inserted: Vec<(bool, ItemStack)>,
}

fn run(quick_move: QuickMove, answers: Answers) -> (Vec<String>, ItemStack) {
    let mut inserted = answers.inserted.into_iter();
    let mut current = quick_move;
    let mut log = Vec::new();
    loop {
        let event = match current.action() {
            Action::AskHasStack => Event::HasStack(answers.has_stack),
            Action::AskStack => Event::Stack(answers.stack),
            Action::InsertItem(Target { start, end, from_last }) => {
                log.push(format!("insert {start} {end} {from_last}"));
                let (moved, stack) = inserted.next().unwrap();
                Event::Inserted { moved, stack }
            }
            Action::SetStackPrev { stack, previous } => {
                log.push(format!("set {} {}", stack.item_count, previous.item_count));
                Event::Done
            }
            Action::MarkDirty => {
                log.push("dirty".to_string());
                Event::Done
            }
            Action::OnTakeItem { stack } => {
                log.push(format!("take {}", stack.item_count));
                Event::Done
            }
            Action::OnQuickMoveCrafted { stack, previous } => {
                log.push(format!("crafted {} {}", stack.item_count, previous.item_count));
                Event::Done
            }
            Action::DropItem { stack } => {
                log.push(format!("drop {}", stack.item_count));
                Event::Done
            }
            Action::Return { stack } => return (log, stack),
        };
        current = current.resume(event);
    }
}

fn moved(slot: i32, before: u8, inserted: &[(bool, u8)]) -> (Vec<String>, u8) {
    let handler = CraftingTableScreenHandler::new(7, &player(), BOOK);
    let answers = Answers {
        has_stack: true,
        stack: stack(before),
        inserted: inserted.iter().map(|(moved, left)| (*moved, stack(*left))).collect(),
    };
    let (log, answer) = run(handler.quick_move(slot), answers);
    (log, answer.item_count)
}

#[test]
fn nothing_is_moved_from_an_empty_slot() {
    let answers = Answers { has_stack: false, stack: stack(1), inserted: Vec::new() };
    let (log, answer) = run(QuickMove::new(3), answers);
    assert!(log.is_empty());
    assert!(answer.is_empty());
}

#[test]
fn a_result_goes_to_the_player_from_the_last_slot() {
    assert_eq!(
        moved(0, 4, &[(true, 0)]),
        (
            vec![
                "insert 10 46 true".to_string(),
                "set 0 4".to_string(),
                "take 0".to_string(),
                "crafted 0 4".to_string(),
            ],
            4
        )
    );
}

#[test]
fn what_is_left_of_a_result_is_dropped() {
    assert_eq!(
        moved(0, 4, &[(true, 1)]),
        (
            vec![
                "insert 10 46 true".to_string(),
                "dirty".to_string(),
                "take 1".to_string(),
                "crafted 1 4".to_string(),
                "drop 1".to_string(),
            ],
            4
        )
    );
}

#[test]
fn a_result_without_room_stays() {
    assert_eq!(moved(0, 4, &[(false, 4)]), (vec!["insert 10 46 true".to_string()], 0));
}

#[test]
fn an_input_goes_to_the_player() {
    for slot in [1, 9] {
        assert_eq!(
            moved(slot, 5, &[(true, 2)]),
            (
                vec![
                    "insert 10 46 false".to_string(),
                    "dirty".to_string(),
                    "take 2".to_string(),
                ],
                5
            )
        );
    }
}

#[test]
fn what_the_player_has_goes_to_the_inputs_first() {
    for slot in [10, 36, 37, 45] {
        assert_eq!(
            moved(slot, 5, &[(true, 0)]),
            (
                vec!["insert 1 10 false".to_string(), "set 0 5".to_string(), "take 0".to_string()],
                5
            )
        );
    }
}

#[test]
fn what_the_player_has_changes_between_hotbar_and_main_inventory() {
    for (slot, target) in [
        (10, "insert 37 46 false"),
        (36, "insert 37 46 false"),
        (37, "insert 10 37 false"),
        (45, "insert 10 37 false"),
    ] {
        assert_eq!(
            moved(slot, 5, &[(false, 5), (true, 1)]),
            (
                vec![
                    "insert 1 10 false".to_string(),
                    target.to_string(),
                    "dirty".to_string(),
                    "take 1".to_string(),
                ],
                5
            )
        );
        assert_eq!(
            moved(slot, 5, &[(false, 5), (false, 5)]),
            (vec!["insert 1 10 false".to_string(), target.to_string()], 0)
        );
    }
}

#[test]
fn an_unchanged_count_moves_nothing() {
    assert_eq!(
        moved(5, 5, &[(true, 5)]),
        (vec!["insert 10 46 false".to_string(), "dirty".to_string()], 0)
    );
}

#[test]
fn other_slots_go_to_the_player() {
    let answers =
        Answers { has_stack: true, stack: stack(3), inserted: vec![(true, stack(0))] };
    let (log, answer) = run(QuickMove::new(46), answers);
    assert_eq!(log, vec!["insert 10 46 false", "set 0 3", "take 0"]);
    assert_eq!(answer.item_count, 3);
}
