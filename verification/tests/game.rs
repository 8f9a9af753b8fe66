//! End-to-end tests driving the dispatcher and the update step against the
//! real world content.

use text_engine::command_handler::CommandHandler;
use text_engine::entity::Object;
use text_engine::game_state::GameState;
use text_engine::inventory::Inventory;
use text_engine::parser::Parser;
use text_engine::player::Player;
use text_engine::room::{Room, RoomID};
use text_engine::update::update;
use text_engine::world::get_rooms;

fn setup() -> (Player, Vec<Room>, GameState) {
    let rooms = get_rooms();
    let player = Player {
        name: "me".to_string(),
        desc: "a person".to_string(),
        at: RoomID(0),
        inventory: Inventory { objects: Vec::new() },
    };
    let state = GameState { player_won: false, player_lost: false, start_time: 0, tea_time: None };
    (player, rooms, state)
}

fn run(line: &str, p: &mut Player, rooms: &mut Vec<Room>, st: &mut GameState, now: u64) -> String {
    let cmd = Parser::parse(line).expect("the command should parse");
    CommandHandler::handle_command(cmd, p, rooms, st, now).message
}

fn room_object<'a>(rooms: &'a [Room], ri: usize, name: &str) -> &'a Object {
    rooms[ri]
        .inventory
        .objects
        .iter()
        .find(|o| o.name == name)
        .unwrap_or_else(|| panic!("no object {name} in room {ri}"))
}

fn player_object<'a>(p: &'a Player, name: &str) -> &'a Object {
    p.inventory
        .objects
        .iter()
        .find(|o| o.name == name)
        .unwrap_or_else(|| panic!("player does not hold {name}"))
}

#[test]
fn round_trip_through_doors() {
    let (mut p, mut rooms, mut st) = setup();
    let names_before: Vec<String> =
        rooms[0].inventory.objects.iter().map(|o| o.name.clone()).collect();
    run("east", &mut p, &mut rooms, &mut st, 0);
    assert_eq!(p.at, RoomID(1));
    run("west", &mut p, &mut rooms, &mut st, 0);
    assert_eq!(p.at, RoomID(0));
    let names_after: Vec<String> =
        rooms[0].inventory.objects.iter().map(|o| o.name.clone()).collect();
    assert_eq!(names_before, names_after);
    assert_eq!(rooms[1].inventory.objects.len(), 7);
}

#[test]
fn movement_message_composition() {
    let (mut p, mut rooms, mut st) = setup();
    // A door without an open-message: banner plus room description.
    let msg = run("east", &mut p, &mut rooms, &mut st, 0);
    assert_eq!(msg, format!("===============\nKitchen\n===============\n{}", rooms[1].desc));
    run("west", &mut p, &mut rooms, &mut st, 0);
    // A door with an open-message: the message slots in between.
    let msg = run("north", &mut p, &mut rooms, &mut st, 0);
    assert_eq!(
        msg,
        format!(
            "===============\nHallway\n===============\nYou step into the hallway.\n{}",
            rooms[2].desc
        )
    );
}

#[test]
fn closed_door_does_not_move_the_player() {
    let (mut p, mut rooms, mut st) = setup();
    run("north", &mut p, &mut rooms, &mut st, 0);
    assert_eq!(p.at, RoomID(2));
    let msg = run("north", &mut p, &mut rooms, &mut st, 0);
    assert_eq!(msg, "A note is on the door. It reads `I'll be back at 11:00pm.`");
    assert_eq!(p.at, RoomID(2));
}

#[test]
fn no_door_in_that_direction() {
    let (mut p, mut rooms, mut st) = setup();
    let msg = run("south", &mut p, &mut rooms, &mut st, 0);
    assert_eq!(msg, "You can't go that way.");
    assert_eq!(p.at, RoomID(0));
}

#[test]
fn examine_reveals_nested_objects() {
    let (mut p, mut rooms, mut st) = setup();
    run("east", &mut p, &mut rooms, &mut st, 0);
    assert!(!room_object(&rooms, 1, "water").can_take);
    let msg = run("examine counter", &mut p, &mut rooms, &mut st, 0);
    assert!(msg.ends_with("You can now take: water."));
    assert!(room_object(&rooms, 1, "water").can_take);
}

#[test]
fn examine_is_idempotent() {
    let (mut p, mut rooms, mut st) = setup();
    run("east", &mut p, &mut rooms, &mut st, 0);
    let first = run("examine counter", &mut p, &mut rooms, &mut st, 0);
    let count_after_first = rooms[1].inventory.objects.len();
    let second = run("examine counter", &mut p, &mut rooms, &mut st, 0);
    assert_eq!(first, second);
    assert_eq!(rooms[1].inventory.objects.len(), count_after_first);
    assert!(room_object(&rooms, 1, "water").can_take);
}

#[test]
fn take_requires_a_takeable_object() {
    let (mut p, mut rooms, mut st) = setup();
    let msg = run("take couch", &mut p, &mut rooms, &mut st, 0);
    assert_eq!(msg, "You can't do that.");
    run("east", &mut p, &mut rooms, &mut st, 0);
    // Water is still hidden in the counter, so it cannot be taken yet.
    let msg = run("take water", &mut p, &mut rooms, &mut st, 0);
    assert_eq!(msg, "You can't do that.");
}

#[test]
fn take_scrubs_the_name_from_containers() {
    let (mut p, mut rooms, mut st) = setup();
    run("east", &mut p, &mut rooms, &mut st, 0);
    run("examine counter", &mut p, &mut rooms, &mut st, 0);
    let msg = run("take water", &mut p, &mut rooms, &mut st, 0);
    assert_eq!(msg, "You take the water.");
    assert!(player_object(&p, "water").name == "water");
    assert!(rooms[1].inventory.objects.iter().all(|o| o.name != "water"));
    assert!(room_object(&rooms, 1, "counter").inventory.is_empty());
}

#[test]
fn inventory_listing() {
    let (mut p, mut rooms, mut st) = setup();
    let msg = run("inventory", &mut p, &mut rooms, &mut st, 0);
    assert_eq!(msg, "Your pockets are empty.");
    run("east", &mut p, &mut rooms, &mut st, 0);
    run("examine counter", &mut p, &mut rooms, &mut st, 0);
    run("take water", &mut p, &mut rooms, &mut st, 0);
    let msg = run("i", &mut p, &mut rooms, &mut st, 0);
    assert_eq!(msg, "Here are the contents of your pockets:\n\t- water");
}

#[test]
fn put_requires_holding_the_object() {
    let (mut p, mut rooms, mut st) = setup();
    run("east", &mut p, &mut rooms, &mut st, 0);
    let msg = run("put banana in mug", &mut p, &mut rooms, &mut st, 0);
    assert_eq!(msg, "You don't have banana.");
}

#[test]
fn put_requires_an_accepting_container() {
    let (mut p, mut rooms, mut st) = setup();
    run("east", &mut p, &mut rooms, &mut st, 0);
    run("examine counter", &mut p, &mut rooms, &mut st, 0);
    run("take water", &mut p, &mut rooms, &mut st, 0);
    // The cupboard does not accept water; nothing may change.
    let msg = run("put water in cupboard", &mut p, &mut rooms, &mut st, 0);
    assert_eq!(msg, "You can't do that.");
    assert_eq!(player_object(&p, "water").name, "water");
    assert!(room_object(&rooms, 1, "cupboard").inventory == vec!["mug".to_string()]);
}

#[test]
fn kettle_flow() {
    let (mut p, mut rooms, mut st) = setup();
    run("east", &mut p, &mut rooms, &mut st, 0);
    // The kettle is empty at first.
    let msg = run("use kettle", &mut p, &mut rooms, &mut st, 0);
    assert_eq!(msg, "You might need to put water into the kettle first.");
    run("examine counter", &mut p, &mut rooms, &mut st, 0);
    run("take water", &mut p, &mut rooms, &mut st, 0);
    let msg = run("put water in kettle", &mut p, &mut rooms, &mut st, 0);
    assert_eq!(msg, "You put water into kettle.");
    assert_eq!(room_object(&rooms, 1, "kettle").inventory, vec!["water".to_string()]);
    let msg = run("use kettle", &mut p, &mut rooms, &mut st, 0);
    assert_eq!(msg, "You turn on the kettle. There is now hot water inside the kettle.");
    assert_eq!(room_object(&rooms, 1, "kettle").inventory, vec!["hot water".to_string()]);
    assert!(room_object(&rooms, 1, "hot water").can_take);
}

/// Drives the session up to a mug holding both ingredients, with the brew
/// clock started at the returned instant.
fn brew_setup(p: &mut Player, rooms: &mut Vec<Room>, st: &mut GameState, now: u64) -> u64 {
    run("east", p, rooms, st, now);
    run("examine counter", p, rooms, st, now);
    run("take water", p, rooms, st, now);
    run("put water in kettle", p, rooms, st, now);
    run("use kettle", p, rooms, st, now);
    run("take hot water", p, rooms, st, now);
    run("examine tea tin", p, rooms, st, now);
    run("take tea bag", p, rooms, st, now);
    run("examine cupboard", p, rooms, st, now);
    run("take mug", p, rooms, st, now);
    run("put tea bag in mug", p, rooms, st, now);
    assert_eq!(st.tea_time, None);
    let msg = run("put hot water in mug", p, rooms, st, now);
    assert_eq!(msg, "You put hot water into mug.");
    assert_eq!(st.tea_time, Some(now));
    now
}

#[test]
fn brew_timer() {
    let (mut p, mut rooms, mut st) = setup();
    let t = brew_setup(&mut p, &mut rooms, &mut st, 20);
    // The brew threshold has not elapsed yet: nothing happens.
    assert_eq!(update(&mut p, &mut rooms, &mut st, t + 60), None);
    assert_eq!(player_object(&p, "mug").name, "mug");
    // One second past the threshold the tea is done.
    let msg = update(&mut p, &mut rooms, &mut st, t + 61);
    assert!(msg.unwrap().starts_with("Your tea is brewed"));
    let tea = player_object(&p, "brewed tea");
    assert_eq!(tea.inventory, vec!["brewed tea".to_string()]);
    assert!(p.inventory.objects.iter().all(|o| o.name != "mug"));
}

#[test]
fn win_scenario() {
    let (mut p, mut rooms, mut st) = setup();
    let t = brew_setup(&mut p, &mut rooms, &mut st, 20);
    update(&mut p, &mut rooms, &mut st, t + 61);
    // The hallway door is still closed before its threshold.
    assert!(!rooms[2].doors.iter().find(|d| d.target == RoomID(3)).unwrap().is_open);
    update(&mut p, &mut rooms, &mut st, 181);
    assert!(rooms[2].doors.iter().find(|d| d.target == RoomID(3)).unwrap().is_open);
    run("west", &mut p, &mut rooms, &mut st, 181);
    run("north", &mut p, &mut rooms, &mut st, 181);
    let msg = run("north", &mut p, &mut rooms, &mut st, 181);
    assert!(msg.contains("Unit 11"));
    let first = run("talk cat", &mut p, &mut rooms, &mut st, 182);
    assert!(first.contains("`Hi, I suppose you're here for some sugar?`"));
    let again = run("talk cat", &mut p, &mut rooms, &mut st, 182);
    assert!(again.contains("catch its own tail"));
    let msg = run("ask cat for sugar", &mut p, &mut rooms, &mut st, 183);
    assert!(msg.ends_with("The cat gives you sugar."));
    assert_eq!(player_object(&p, "sugar").name, "sugar");
    let msg = run("put sugar in brewed tea", &mut p, &mut rooms, &mut st, 184);
    assert_eq!(msg, "You put sugar into brewed tea.");
    assert!(!st.player_won);
    update(&mut p, &mut rooms, &mut st, 185);
    assert!(st.player_won);
    assert!(!st.player_lost);
    // The flag never reverts.
    update(&mut p, &mut rooms, &mut st, 200);
    assert!(st.player_won);
}

#[test]
fn lockout_takes_precedence_over_a_simultaneous_win() {
    let (mut p, mut rooms, mut st) = setup();
    // The player already holds sweetened brewed tea when time runs out.
    p.inventory.objects.push(Object {
        name: "brewed tea".to_string(),
        desc: "brewed tea".to_string(),
        inventory: vec!["brewed tea".to_string(), "sugar".to_string()],
        accepts: vec!["sugar".to_string()],
        can_take: true,
        can_use: false,
        msg_on_take: None,
        msg_on_use: None,
    });
    update(&mut p, &mut rooms, &mut st, 300);
    assert!(st.player_lost);
    assert!(!st.player_won);
    // A later call never clears the loss either.
    update(&mut p, &mut rooms, &mut st, 301);
    assert!(st.player_lost);
    assert!(!st.player_won);
}

#[test]
fn win_just_before_the_deadline() {
    let (mut p, mut rooms, mut st) = setup();
    p.inventory.objects.push(Object {
        name: "brewed tea".to_string(),
        desc: "brewed tea".to_string(),
        inventory: vec!["brewed tea".to_string(), "sugar".to_string()],
        accepts: vec!["sugar".to_string()],
        can_take: true,
        can_use: false,
        msg_on_take: None,
        msg_on_use: None,
    });
    update(&mut p, &mut rooms, &mut st, 299);
    assert!(st.player_won);
    assert!(!st.player_lost);
}

#[test]
fn watch_reads_the_session_time() {
    let (mut p, mut rooms, mut st) = setup();
    // The watch rests on the coffee table until revealed.
    let msg = run("use watch", &mut p, &mut rooms, &mut st, 0);
    assert_eq!(msg, "You can't use that.");
    run("examine coffee table", &mut p, &mut rooms, &mut st, 0);
    run("take watch", &mut p, &mut rooms, &mut st, 0);
    let msg = run("use watch", &mut p, &mut rooms, &mut st, 0);
    assert_eq!(msg, "You glance at your watch. It reads 7:00pm.");
    let msg = run("use watch", &mut p, &mut rooms, &mut st, 125);
    assert_eq!(msg, "You glance at your watch. It reads 9:05pm.");
    let msg = run("use watch", &mut p, &mut rooms, &mut st, 59);
    assert_eq!(msg, "You glance at your watch. It reads 7:59pm.");
}

#[test]
fn error_replies() {
    let (mut p, mut rooms, mut st) = setup();
    let msg = run("dance", &mut p, &mut rooms, &mut st, 0);
    assert_eq!(msg, "I don't know what dance means.");
    let msg = run("examine ghost", &mut p, &mut rooms, &mut st, 0);
    assert_eq!(msg, "You can't do that.");
    let msg = run("talk dog", &mut p, &mut rooms, &mut st, 0);
    assert_eq!(msg, "There is no dog here.");
    let msg = run("take", &mut p, &mut rooms, &mut st, 0);
    assert_eq!(msg, "You can't take nothing!");
    let msg = run("use", &mut p, &mut rooms, &mut st, 0);
    assert_eq!(msg, "Use what?");
    let msg = run("talk", &mut p, &mut rooms, &mut st, 0);
    assert_eq!(msg, "Talk to what?");
    let msg = run("ask", &mut p, &mut rooms, &mut st, 0);
    assert_eq!(msg, "Ask who?");
    let msg = run("put", &mut p, &mut rooms, &mut st, 0);
    assert_eq!(msg, "You can't put nothing!");
}

#[test]
fn ask_for_something_the_character_lacks() {
    let (mut p, mut rooms, mut st) = setup();
    update(&mut p, &mut rooms, &mut st, 181);
    run("north", &mut p, &mut rooms, &mut st, 181);
    run("north", &mut p, &mut rooms, &mut st, 181);
    let msg = run("ask cat for fish", &mut p, &mut rooms, &mut st, 182);
    assert_eq!(msg, "The cat doesn't have that.");
}

#[test]
fn examine_the_player_and_the_room() {
    let (mut p, mut rooms, mut st) = setup();
    let msg = run("examine me", &mut p, &mut rooms, &mut st, 0);
    assert_eq!(msg, "a person");
    let msg = run("look", &mut p, &mut rooms, &mut st, 0);
    assert_eq!(msg, rooms[0].desc);
}
