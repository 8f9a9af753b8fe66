//! The game's world content: a four-room apartment block, built once at
//! startup. The interpreter itself never depends on this data; the builders
//! promise the structural facts the game loop relies on — four rooms whose
//! doors all lead to existing rooms.

use vstd::prelude::*;
use vstd::string::StringExecFns;
use crate::character::Character;
use crate::door::Door;
use crate::entity::{Object, ObjectV};
use crate::inventory::Inventory;
use crate::room::{Room, RoomID};
use crate::command_handler::rooms_wf;

verus! {

fn object(name: &str, desc: &str) -> (r: Object)
    ensures
        r@ == (ObjectV {
            name: name@,
            desc: desc@,
            inventory: Seq::empty(),
            accepts: Seq::empty(),
            can_take: false,
            can_use: false,
            msg_on_take: None,
            msg_on_use: None,
        }),
{
    let r = Object {
        name: String::from_str(name),
        desc: String::from_str(desc),
        inventory: Vec::new(),
        accepts: Vec::new(),
        can_take: false,
        can_use: false,
        msg_on_take: None,
        msg_on_use: None,
    };
    proof {
        assert(r.inventory.deep_view() =~= Seq::<Seq<char>>::empty());
        assert(r.accepts.deep_view() =~= Seq::<Seq<char>>::empty());
    }
    r
}

fn door(target: usize, direction: &str, is_open: bool) -> (r: Door)
    ensures
        r.target == RoomID(target),
        r@.target == target as nat,
        r@.direction == direction@,
        r@.is_open == is_open,
        r@.msg_on_open is None,
        r@.msg_on_closed is None,
{
    Door {
        target: RoomID(target),
        direction: String::from_str(direction),
        is_open,
        msg_on_open: None,
        msg_on_closed: None,
    }
}

/// The living-room furniture: the couch, the coffee table (with the watch
/// resting on it), and the watch itself — usable once found, but fixed to
/// the room until the table is examined.
pub fn get_living_room_items() -> (r: Inventory)
    ensures
        r@.len() == 3,
        r@[0].name == "couch"@,
        r@[1].name == "coffee table"@,
        r@[1].inventory == seq!["watch"@],
        r@[2].name == "watch"@,
        r@[2].can_use,
        !r@[2].can_take,
{
    let couch = object(
        "couch",
        "A fluffy light grey couch. It's so comfortable that you sometimes unknowingly doze off on its cushions.",
    );
    let mut coffee_table = object(
        "coffee table",
        "The amber surface of the table is stained with faint traces of old coffee and tea mugs.",
    );
    coffee_table.inventory.push(String::from_str("watch"));
    let mut watch = object(
        "watch",
        "A simple analog watch with a thin gold band. You take comfort in the fact that if you ever need to know the time, you can USE the watch.",
    );
    watch.can_use = true;
    let mut items = Inventory { objects: Vec::new() };
    items.objects.push(couch);
    items.objects.push(coffee_table);
    items.objects.push(watch);
    proof {
        assert(items@[1].inventory =~= seq!["watch"@]);
    }
    items
}

/// The kitchen: the counter (hiding the water), the kettle that accepts
/// water, the tea tin (hiding the tea bag), the cupboard (hiding the mug),
/// and the mug that accepts the tea ingredients. Nothing here is takeable
/// until a container is examined.
pub fn get_kitchen_items() -> (r: Inventory)
    ensures
        r@.len() == 7,
        r@[0].name == "counter"@,
        r@[0].inventory == seq!["water"@],
        r@[1].name == "kettle"@,
        r@[1].accepts == seq!["water"@],
        r@[1].inventory == Seq::<Seq<char>>::empty(),
        r@[2].name == "tea tin"@,
        r@[2].inventory == seq!["tea bag"@],
        r@[3].name == "tea bag"@,
        r@[4].name == "water"@,
        r@[5].name == "cupboard"@,
        r@[5].inventory == seq!["mug"@],
        r@[6].name == "mug"@,
        r@[6].accepts == seq!["tea bag"@, "hot water"@, "sugar"@],
        forall|i: int| 0 <= i < r@.len() ==> !(#[trigger] r@[i]).can_take,
{
    let mut counter = object(
        "counter",
        "Your friendly philodendron sits idly on the countertop, keeping the remnants of this morning's half-eaten breakfast company. A kettle and a tea tin rest on the other side of the sink.",
    );
    counter.inventory.push(String::from_str("water"));
    let mut kettle = object(
        "kettle",
        "Your trusty electric kettle. Sees USE almost every morning, as well as some unfortunate nights.",
    );
    kettle.accepts.push(String::from_str("water"));
    let mut tea_tin = object(
        "tea tin",
        "A delicate purple-hued tin box with a vaguely English air. The label reads `Harney & Son's Earl Grey Tea Sachets`. It also tells you that this is special tea and must be brewed for 60 minutes.",
    );
    tea_tin.inventory.push(String::from_str("tea bag"));
    let tea_bag = object(
        "tea bag",
        "A silk tea bag with dark leaves inside. The blueberry maple aroma of the tea comforts you.",
    );
    let water = object("water", "Water, the source of life! Straight from the Brita.");
    let mut cupboard = object(
        "cupboard",
        "A white-framed cupboard. You can see your growing mug collection through the glass panes.",
    );
    cupboard.inventory.push(String::from_str("mug"));
    let mut mug = object(
        "mug",
        "Your favorite mug. It fits snugly into your hand. A small outline of a rabbit is painted on the side.",
    );
    mug.accepts.push(String::from_str("tea bag"));
    mug.accepts.push(String::from_str("hot water"));
    mug.accepts.push(String::from_str("sugar"));
    let mut items = Inventory { objects: Vec::new() };
    items.objects.push(counter);
    items.objects.push(kettle);
    items.objects.push(tea_tin);
    items.objects.push(tea_bag);
    items.objects.push(water);
    items.objects.push(cupboard);
    items.objects.push(mug);
    proof {
        assert(items@[0].inventory =~= seq!["water"@]);
        assert(items@[1].accepts =~= seq!["water"@]);
        assert(items@[2].inventory =~= seq!["tea bag"@]);
        assert(items@[5].inventory =~= seq!["mug"@]);
        assert(items@[6].accepts =~= seq!["tea bag"@, "hot water"@, "sugar"@]);
    }
    items
}

/// The whole world: living room, kitchen, hallway and the neighbour's unit,
/// in that order, every door leading to one of the four rooms. The hallway
/// door to the neighbour starts closed; the elapsed-time trigger opens it.
/// The only character is the neighbour's cat, holding the takeable sugar.
pub fn get_rooms() -> (r: Vec<Room>)
    ensures
        r@.len() == 4,
        rooms_wf(r.deep_view()),
        r.deep_view()[0].name == "Living Room"@,
        r.deep_view()[1].name == "Kitchen"@,
        r.deep_view()[2].name == "Hallway"@,
        r.deep_view()[3].name == "Unit 11"@,
        r.deep_view()[2].doors.len() == 2,
        r.deep_view()[2].doors[1].target == 3,
        !r.deep_view()[2].doors[1].is_open,
        r.deep_view()[3].characters.len() == 1,
        r.deep_view()[3].characters[0].name == "cat"@,
        r.deep_view()[3].characters[0].inventory.len() == 1,
        r.deep_view()[3].characters[0].inventory[0].name == "sugar"@,
        r.deep_view()[3].characters[0].inventory[0].can_take,
        !r.deep_view()[3].characters[0].has_interacted,
{
    let mut living_room_doors: Vec<Door> = Vec::new();
    living_room_doors.push(door(1, "east", true));
    let mut hallway_door = door(2, "north", true);
    hallway_door.msg_on_open = Some(String::from_str("You step into the hallway."));
    living_room_doors.push(hallway_door);
    let living_room = Room {
        name: String::from_str("Living Room"),
        desc: String::from_str(
            "Your small but cozy living room. A light grey couch is nestled into the far corner, and a coffee table sits comfortably at its feet. The front door of your apartment lies to the north, and the kitchen door lies to the east.",
        ),
        doors: living_room_doors,
        inventory: get_living_room_items(),
        characters: Vec::new(),
    };

    let mut kitchen_doors: Vec<Door> = Vec::new();
    kitchen_doors.push(door(0, "west", true));
    let kitchen = Room {
        name: String::from_str("Kitchen"),
        desc: String::from_str(
            "A full moon glow illuminates the room from the window above the sink. Beside the window is a cupboard full of kitchenware. Various items lay on the kitchen counter. The door to the living room lies to the west.",
        ),
        doors: kitchen_doors,
        inventory: get_kitchen_items(),
        characters: Vec::new(),
    };

    let mut hallway_doors: Vec<Door> = Vec::new();
    hallway_doors.push(door(0, "south", true));
    let mut unit_door = door(3, "north", false);
    unit_door.msg_on_open = Some(
        String::from_str(
            "You knock hesitantly. As soon as your hand makes contact with the door, it slowly creaks open.",
        ),
    );
    unit_door.msg_on_closed = Some(
        String::from_str("A note is on the door. It reads `I'll be back at 11:00pm.`"),
    );
    hallway_doors.push(unit_door);
    let hallway = Room {
        name: String::from_str("Hallway"),
        desc: String::from_str(
            "The forest green walls of the corridor are decorated with black and white photos, eclectic paintings, and old 70s movie posters. It smells a bit musty. Your front door is to the south, and across the hall is the door to Unit 11.",
        ),
        doors: hallway_doors,
        inventory: Inventory { objects: Vec::new() },
        characters: Vec::new(),
    };

    let mut unit_doors: Vec<Door> = Vec::new();
    let mut back_door = door(2, "south", true);
    back_door.msg_on_open = Some(
        String::from_str(
            "You step back into the hallway, and the door shuts softly behind you.",
        ),
    );
    unit_doors.push(back_door);
    let mut sugar = object(
        "sugar",
        "Small delicate sugar cubes. Each individual granule seems to shimmer and strangely reflect the light.",
    );
    sugar.can_take = true;
    let mut cat_items = Inventory { objects: Vec::new() };
    cat_items.objects.push(sugar);
    let cat = Character {
        name: String::from_str("cat"),
        desc: String::from_str(
            "A medium-haired calico cat. It blinks slowly in your direction. You feel a bit silly, but you have the urge to talk to it.",
        ),
        inventory: cat_items,
        on_talk: String::from_str(
            "You ask the cat if it can talk. It stares at you for a while, and just as you were about to give up, you hear it speak. `Hi, I suppose you're here for some sugar?`",
        ),
        on_talk_again: String::from_str(
            "The cat seems to be preoccupied with trying to catch its own tail. You think it's best not to bother it.",
        ),
        on_ask: String::from_str(
            "The cat thinks for a moment. `I was saving this sugar for a special moment, but I guess this is as good as any.` The cat takes out some sugar cubes. `Good luck with your tea!`",
        ),
        has_interacted: false,
    };
    let mut unit_characters: Vec<Character> = Vec::new();
    unit_characters.push(cat);
    let unit = Room {
        name: String::from_str("Unit 11"),
        desc: String::from_str(
            "The living room in Unit 11 is dimly lit, the only source of light being the glow of a few candles. A small cat is curled on the leather couch, and raises its head to look at you. Its owner is nowhere to be seen.",
        ),
        doors: unit_doors,
        inventory: Inventory { objects: Vec::new() },
        characters: unit_characters,
    };

    let mut rooms: Vec<Room> = Vec::new();
    rooms.push(living_room);
    rooms.push(kitchen);
    rooms.push(hallway);
    rooms.push(unit);
    proof {
        assert(rooms_wf(rooms.deep_view())) by {
            assert(forall|i: int, j: int|
                0 <= i < rooms.deep_view().len() && 0 <= j
                    < rooms.deep_view()[i].doors.len() ==> (#[trigger] rooms.deep_view()[i].doors[
                j
            ]).target < 4);
        }
    }
    rooms
}

} // verus!
