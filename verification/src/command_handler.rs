//! The command dispatcher: resolves a parsed [`Command`] against the world
//! and the player, mutates state as each verb prescribes, and answers with a
//! single user-facing message.
//!
//! Every handler has a spec-level transition function (`go_spec`,
//! `examine_spec`, …) that fully determines the new state and the message;
//! the executable handler is proved to implement it.

use vstd::prelude::*;
use vstd::string::StringExecFns;
use crate::command::{
    cant_do_that_msg, didnt_understand_msg, doesnt_have_that_msg, no_object_msg, Command,
    CommandResult, CommandV,
};
use crate::character::CharacterV;
use crate::door::door_index;
use crate::entity::{names_contain, Object, ObjectV};
use crate::game_state::GameState;
use crate::inventory::{
    has_object, lemma_obj_index, lemma_reveal_all_pointwise, obj_index, obj_names, reveal_all,
    scrub_spec,
};
use crate::parser::{is_direction, word_is_direction};
use crate::player::{Player, PlayerV};
use crate::room::{char_index, display_name_spec, Room, RoomV};
use crate::util::{
    copy_strings, count_name, dec_digits, join_names, join_with, pad2, str_eq, u64_to_dec,
};

verus! {

/// Every door of every room leads to a room that exists.
pub open spec fn rooms_wf(rooms: Seq<RoomV>) -> bool {
    forall|i: int, j: int|
        0 <= i < rooms.len() && 0 <= j < rooms[i].doors.len() ==> (#[trigger] rooms[i].doors[
            j
        ]).target < rooms.len()
}

/// What a movement command leaves behind: where the player stands and what
/// is said.
pub struct GoOutcome {
    pub at: nat,
    pub msg: Seq<char>,
}

/// The movement rule: no door in that direction refuses; a closed door shows
/// its closed-message (possibly empty); an open door moves the player and
/// composes the destination's display name, the door's open-message if any,
/// and the destination's description.
pub open spec fn go_spec(player: PlayerV, rooms: Seq<RoomV>, dir: Seq<char>) -> GoOutcome
    recommends
        player.at < rooms.len(),
        rooms_wf(rooms),
{
    let room = rooms[player.at as int];
    let di = door_index(room.doors, dir);
    if di == -1 {
        GoOutcome { at: player.at, msg: "You can't go that way."@ }
    } else {
        let door = room.doors[di];
        if door.is_open {
            let dest = rooms[door.target as int];
            let door_msg = match door.msg_on_open {
                Some(m) => m,
                None => Seq::empty(),
            };
            let msg = if door_msg.len() == 0 {
                display_name_spec(dest.name) + "\n"@ + dest.desc
            } else {
                display_name_spec(dest.name) + "\n"@ + door_msg + "\n"@ + dest.desc
            };
            GoOutcome { at: door.target, msg }
        } else {
            let msg = match door.msg_on_closed {
                Some(m) => m,
                None => Seq::empty(),
            };
            GoOutcome { at: player.at, msg }
        }
    }
}

/// Law: walking through an open door and then back through an open door of
/// the destination that leads home returns the player to the starting room.
/// Together with `handle_go`'s contract that movement never changes any
/// room's contents, a round trip leaves the world exactly as it was — no
/// object is duplicated or lost.
pub proof fn lemma_go_round_trip(player: PlayerV, rooms: Seq<RoomV>, d1: Seq<char>, d2: Seq<char>)
    requires
        player.at < rooms.len(),
        ({
            let room = rooms[player.at as int];
            let di = door_index(room.doors, d1);
            &&& di >= 0
            &&& room.doors[di].is_open
            &&& room.doors[di].target < rooms.len()
            &&& ({
                let back = door_index(rooms[room.doors[di].target as int].doors, d2);
                &&& back >= 0
                &&& rooms[room.doors[di].target as int].doors[back].is_open
                &&& rooms[room.doors[di].target as int].doors[back].target == player.at
            })
        }),
    ensures
        go_spec(
            PlayerV { at: go_spec(player, rooms, d1).at, ..player },
            rooms,
            d2,
        ).at == player.at,
{
    crate::door::lemma_door_index(rooms[player.at as int].doors, d1);
    let b = rooms[player.at as int].doors[door_index(rooms[player.at as int].doors, d1)].target;
    crate::door::lemma_door_index(rooms[b as int].doors, d2);
}

/// What the inventory verb answers: the pocket listing, or the empty-pockets
/// line when the listing comes out empty.
pub open spec fn inventory_msg_spec(player: PlayerV) -> Seq<char> {
    let listing = join_with(obj_names(player.inventory), "\n\t- "@);
    if listing.len() == 0 {
        "Your pockets are empty."@
    } else {
        "Here are the contents of your pockets:\n\t- "@ + listing
    }
}

/// What examining leaves behind: the (possibly revealed) rooms and the reply.
pub struct ExamineOutcome {
    pub rooms: Seq<RoomV>,
    pub msg: Seq<char>,
}

/// The examine rule: no object names the room itself; "me"/"myself" name the
/// player; otherwise the entity is resolved first in the player's pockets,
/// then in the room's flat inventory, then among the room's characters. A
/// room object with a non-empty nested name list has each named sibling made
/// takeable and the reply lists them.
pub open spec fn examine_spec(cmd: CommandV, player: PlayerV, rooms: Seq<RoomV>) -> ExamineOutcome
    recommends
        player.at < rooms.len(),
{
    let room = rooms[player.at as int];
    match cmd.obj {
        None => ExamineOutcome { rooms, msg: room.desc },
        Some(name) => {
            if name == "me"@ || name == "myself"@ {
                ExamineOutcome { rooms, msg: player.desc }
            } else if has_object(player.inventory, name) {
                ExamineOutcome {
                    rooms,
                    msg: player.inventory[obj_index(player.inventory, name)].desc,
                }
            } else if has_object(room.inventory, name) {
                let o = room.inventory[obj_index(room.inventory, name)];
                if o.inventory.len() == 0 {
                    ExamineOutcome { rooms, msg: o.desc }
                } else {
                    ExamineOutcome {
                        rooms: rooms.update(
                            player.at as int,
                            RoomV { inventory: reveal_all(room.inventory, o.inventory), ..room },
                        ),
                        msg: o.desc + "\nYou can now take: "@ + join_with(o.inventory, ", "@)
                            + "."@,
                    }
                }
            } else if char_index(room.characters, name) >= 0 {
                ExamineOutcome {
                    rooms,
                    msg: room.characters[char_index(room.characters, name)].desc,
                }
            } else {
                ExamineOutcome { rooms, msg: cant_do_that_msg("do"@) }
            }
        },
    }
}

/// Law: examining is idempotent — examining the same target a second time
/// leaves the rooms exactly as the first examine left them. In particular
/// re-examining an already-revealed container does not duplicate entries in
/// the room's flat inventory and never resets a `can_take` flag that is
/// already true.
pub proof fn lemma_examine_idempotent(cmd: CommandV, player: PlayerV, rooms: Seq<RoomV>)
    requires
        player.at < rooms.len(),
    ensures
        examine_spec(cmd, player, examine_spec(cmd, player, rooms).rooms).rooms == examine_spec(
            cmd,
            player,
            rooms,
        ).rooms,
{
    let r1 = examine_spec(cmd, player, rooms).rooms;
    match cmd.obj {
        None => {},
        Some(name) => {
            if name == "me"@ || name == "myself"@ {
            } else if has_object(player.inventory, name) {
            } else {
                let room = rooms[player.at as int];
                if has_object(room.inventory, name) {
                    let oi = obj_index(room.inventory, name);
                    lemma_obj_index(room.inventory, name);
                    let o = room.inventory[oi];
                    if o.inventory.len() == 0 {
                    } else {
                        let inv2 = reveal_all(room.inventory, o.inventory);
                        lemma_reveal_all_pointwise(room.inventory, o.inventory);
                        assert(obj_names(inv2) =~= obj_names(room.inventory));
                        assert(r1[player.at as int].inventory == inv2);
                        assert(obj_index(inv2, name) == oi);
                        let o2 = inv2[oi];
                        assert(o2.inventory == o.inventory);
                        crate::inventory::lemma_reveal_all_idempotent(
                            room.inventory,
                            o.inventory,
                        );
                        assert(reveal_all(inv2, o2.inventory) == inv2);
                        assert((RoomV {
                            inventory: reveal_all(inv2, o2.inventory),
                            ..r1[player.at as int]
                        }) =~= r1[player.at as int]);
                        assert(examine_spec(cmd, player, r1).rooms =~= r1);
                    }
                } else {
                }
            }
        },
    }
}

/// What taking leaves behind.
pub struct TakeOutcome {
    pub player_inv: Seq<ObjectV>,
    pub rooms: Seq<RoomV>,
    pub msg: Seq<char>,
}

/// The take rule: the named object must sit in the current room's flat
/// inventory and be takeable; it then moves into the player's pockets, and
/// its name is scrubbed from every remaining room object's nested name list
/// to keep name-based containment consistent.
pub open spec fn take_spec(cmd: CommandV, player: PlayerV, rooms: Seq<RoomV>) -> TakeOutcome
    recommends
        player.at < rooms.len(),
{
    let room = rooms[player.at as int];
    match cmd.obj {
        None => TakeOutcome {
            player_inv: player.inventory,
            rooms,
            msg: "You can't take nothing!"@,
        },
        Some(name) => {
            let i = obj_index(room.inventory, name);
            if i >= 0 && room.inventory[i].can_take {
                TakeOutcome {
                    player_inv: player.inventory.push(room.inventory[i]),
                    rooms: rooms.update(
                        player.at as int,
                        RoomV {
                            inventory: scrub_spec(room.inventory.remove(i), name),
                            ..room
                        },
                    ),
                    msg: "You take the "@ + name + "."@,
                }
            } else {
                TakeOutcome { player_inv: player.inventory, rooms, msg: cant_do_that_msg("do"@) }
            }
        },
    }
}

/// The prepositions the put verb accepts.
pub open spec fn is_put_preposition(p: Seq<char>) -> bool {
    p == "in"@ || p == "into"@ || p == "inside"@
}

/// What putting leaves behind.
pub struct PutOutcome {
    pub player_inv: Seq<ObjectV>,
    pub rooms: Seq<RoomV>,
    pub tea_time: Option<u64>,
    pub msg: Seq<char>,
}

/// The brew trigger: dropping something into the mug starts the brew clock
/// the moment the mug holds both hot water and a tea bag.
pub open spec fn put_tea_time(
    tname: Seq<char>,
    container: ObjectV,
    tea_time: Option<u64>,
    now: u64,
) -> Option<u64> {
    if tname == "mug"@ && container.inventory.contains("hot water"@) && container.inventory.contains(
        "tea bag"@,
    ) {
        Some(now)
    } else {
        tea_time
    }
}

/// The put rule: the source must be carried, the preposition must be one of
/// in/into/inside, and the container — resolved first in the player's
/// pockets (ignoring the source itself), then in the room — must accept the
/// source's name. On success the source object leaves the player and its
/// name is appended to the container's nested name list; any failure leaves
/// every inventory unchanged.
pub open spec fn put_spec(
    cmd: CommandV,
    player: PlayerV,
    rooms: Seq<RoomV>,
    tea_time: Option<u64>,
    now: u64,
) -> PutOutcome
    recommends
        player.at < rooms.len(),
{
    let room = rooms[player.at as int];
    let unchanged = PutOutcome { player_inv: player.inventory, rooms, tea_time, msg: Seq::empty() };
    match cmd.obj {
        None => PutOutcome { msg: "You can't put nothing!"@, ..unchanged },
        Some(name) => {
            let pi = obj_index(player.inventory, name);
            if pi == -1 {
                PutOutcome { msg: "You don't have "@ + name + "."@, ..unchanged }
            } else {
                let prep = match cmd.prep {
                    Some(p) => p,
                    None => Seq::empty(),
                };
                if !is_put_preposition(prep) {
                    PutOutcome { msg: didnt_understand_msg(prep), ..unchanged }
                } else {
                    let tname = match cmd.obj_prep {
                        Some(t) => t,
                        None => Seq::empty(),
                    };
                    if !has_object(player.inventory, tname) && !has_object(room.inventory, tname) {
                        PutOutcome { msg: cant_do_that_msg("do"@), ..unchanged }
                    } else {
                        let post_inv = player.inventory.remove(pi);
                        if has_object(post_inv, tname) {
                            let ci = obj_index(post_inv, tname);
                            let c = post_inv[ci];
                            if c.accepts.contains(name) {
                                let c2 = ObjectV { inventory: c.inventory.push(name), ..c };
                                PutOutcome {
                                    player_inv: post_inv.update(ci, c2),
                                    rooms,
                                    tea_time: put_tea_time(tname, c2, tea_time, now),
                                    msg: "You put "@ + name + " into "@ + tname + "."@,
                                }
                            } else {
                                PutOutcome { msg: cant_do_that_msg("do"@), ..unchanged }
                            }
                        } else if has_object(room.inventory, tname) {
                            let ci = obj_index(room.inventory, tname);
                            let c = room.inventory[ci];
                            if c.accepts.contains(name) {
                                let c2 = ObjectV { inventory: c.inventory.push(name), ..c };
                                PutOutcome {
                                    player_inv: post_inv,
                                    rooms: rooms.update(
                                        player.at as int,
                                        RoomV { inventory: room.inventory.update(ci, c2), ..room },
                                    ),
                                    tea_time: put_tea_time(tname, c2, tea_time, now),
                                    msg: "You put "@ + name + " into "@ + tname + "."@,
                                }
                            } else {
                                PutOutcome { msg: cant_do_that_msg("do"@), ..unchanged }
                            }
                        } else {
                            PutOutcome { msg: cant_do_that_msg("do"@), ..unchanged }
                        }
                    }
                }
            }
        },
    }
}

/// A put command that goes through: the source is carried, the preposition
/// fits, and a container that accepts the source's name resolves.
pub open spec fn put_succeeds(cmd: CommandV, player: PlayerV, rooms: Seq<RoomV>) -> bool
    recommends
        player.at < rooms.len(),
{
    match cmd.obj {
        None => false,
        Some(name) => {
            let room = rooms[player.at as int];
            let pi = obj_index(player.inventory, name);
            let prep = match cmd.prep {
                Some(p) => p,
                None => Seq::empty(),
            };
            let tname = match cmd.obj_prep {
                Some(t) => t,
                None => Seq::empty(),
            };
            &&& pi >= 0
            &&& is_put_preposition(prep)
            &&& (has_object(player.inventory, tname) || has_object(room.inventory, tname))
            &&& ({
                let post = player.inventory.remove(pi);
                if has_object(post, tname) {
                    post[obj_index(post, tname)].accepts.contains(name)
                } else if has_object(room.inventory, tname) {
                    room.inventory[obj_index(room.inventory, tname)].accepts.contains(name)
                } else {
                    false
                }
            })
        },
    }
}

/// The container a successful put stores into, as it is before insertion.
pub open spec fn put_container(cmd: CommandV, player: PlayerV, rooms: Seq<RoomV>) -> ObjectV
    recommends
        player.at < rooms.len(),
        put_succeeds(cmd, player, rooms),
{
    let name = match cmd.obj {
        Some(n) => n,
        None => Seq::empty(),
    };
    let tname = match cmd.obj_prep {
        Some(t) => t,
        None => Seq::empty(),
    };
    let room = rooms[player.at as int];
    let post = player.inventory.remove(obj_index(player.inventory, name));
    if has_object(post, tname) {
        post[obj_index(post, tname)]
    } else {
        room.inventory[obj_index(room.inventory, tname)]
    }
}

/// Law (containment): a successful put on a name-unique player inventory,
/// into a container whose nested list does not already hold the source's
/// name, leaves the player no longer holding that name, and the name then
/// occurs exactly once in the container's nested list.
pub proof fn lemma_put_containment(
    cmd: CommandV,
    player: PlayerV,
    rooms: Seq<RoomV>,
    tea_time: Option<u64>,
    now: u64,
)
    requires
        player.at < rooms.len(),
        put_succeeds(cmd, player, rooms),
        crate::inventory::names_unique(player.inventory),
        !put_container(cmd, player, rooms).inventory.contains(
            match cmd.obj {
                Some(n) => n,
                None => Seq::empty(),
            },
        ),
    ensures
        ({
            let o = put_spec(cmd, player, rooms, tea_time, now);
            let name = match cmd.obj {
                Some(n) => n,
                None => Seq::empty(),
            };
            let tname = match cmd.obj_prep {
                Some(t) => t,
                None => Seq::empty(),
            };
            let room = rooms[player.at as int];
            let post = player.inventory.remove(obj_index(player.inventory, name));
            &&& !has_object(o.player_inv, name)
            &&& (if has_object(post, tname) {
                count_name(o.player_inv[obj_index(post, tname)].inventory, name) == 1
            } else {
                count_name(
                    o.rooms[player.at as int].inventory[obj_index(room.inventory, tname)].inventory,
                    name,
                ) == 1
            })
        }),
{
    let o = put_spec(cmd, player, rooms, tea_time, now);
    let name = match cmd.obj {
        Some(n) => n,
        None => Seq::empty(),
    };
    let tname = match cmd.obj_prep {
        Some(t) => t,
        None => Seq::empty(),
    };
    let room = rooms[player.at as int];
    let pi = obj_index(player.inventory, name);
    lemma_obj_index(player.inventory, name);
    let post = player.inventory.remove(pi);

    // After the removal no carried object bears the source's name: the one
    // at `pi` was the only one, by name-uniqueness.
    assert forall|j: int| 0 <= j < post.len() implies (#[trigger] post[j]).name != name by {
        if j < pi {
            assert(post[j] == player.inventory[j]);
        } else {
            assert(post[j] == player.inventory[j + 1]);
            assert(player.inventory[pi].name != player.inventory[j + 1].name);
        }
    }
    crate::inventory::lemma_obj_index_missing(post, name);

    if has_object(post, tname) {
        let ci = obj_index(post, tname);
        lemma_obj_index(post, tname);
        let c = post[ci];
        assert(put_container(cmd, player, rooms) == c);
        let c2 = ObjectV { inventory: c.inventory.push(name), ..c };
        assert(o.player_inv == post.update(ci, c2));
        assert forall|j: int|
            0 <= j < o.player_inv.len() implies (#[trigger] o.player_inv[j]).name != name by {
            if j == ci {
                assert(o.player_inv[j] == c2);
            } else {
                assert(o.player_inv[j] == post[j]);
            }
        }
        crate::inventory::lemma_obj_index_missing(o.player_inv, name);
        crate::util::lemma_count_name_zero(c.inventory, name);
        crate::util::lemma_count_name_push(c.inventory, name, name);
        assert(o.player_inv[ci] == c2);
    } else {
        let ci = obj_index(room.inventory, tname);
        lemma_obj_index(room.inventory, tname);
        let c = room.inventory[ci];
        assert(put_container(cmd, player, rooms) == c);
        let c2 = ObjectV { inventory: c.inventory.push(name), ..c };
        assert(o.player_inv == post);
        assert(o.rooms[player.at as int].inventory[ci] == c2);
        crate::util::lemma_count_name_zero(c.inventory, name);
        crate::util::lemma_count_name_push(c.inventory, name, name);
    }
}

/// What using leaves behind.
pub struct UseOutcome {
    pub rooms: Seq<RoomV>,
    pub msg: Seq<char>,
}

/// The freestanding hot-water object the kettle produces.
pub open spec fn hot_water_obj() -> ObjectV {
    ObjectV {
        name: "hot water"@,
        desc: "hot water"@,
        inventory: Seq::empty(),
        accepts: Seq::empty(),
        can_take: true,
        can_use: false,
        msg_on_take: None,
        msg_on_use: None,
    }
}

/// The use rule: a closed table of per-object behaviours. Using the kettle
/// boils the water it contains (its nested list becomes exactly "hot water"
/// and a takeable hot-water object appears in the room); using a carried
/// watch reads the time as a function of the elapsed session seconds;
/// anything else cannot be used.
pub open spec fn use_spec(
    cmd: CommandV,
    player: PlayerV,
    rooms: Seq<RoomV>,
    start_time: u64,
    now: u64,
) -> UseOutcome
    recommends
        player.at < rooms.len(),
        start_time <= now,
{
    let room = rooms[player.at as int];
    match cmd.obj {
        None => UseOutcome { rooms, msg: "Use what?"@ },
        Some(name) => {
            if name == "kettle"@ {
                let ki = obj_index(room.inventory, "kettle"@);
                if ki == -1 {
                    UseOutcome { rooms, msg: no_object_msg("kettle"@) }
                } else {
                    let kettle = room.inventory[ki];
                    if kettle.inventory.contains("water"@) {
                        let kettle2 = ObjectV { inventory: seq!["hot water"@], ..kettle };
                        UseOutcome {
                            rooms: rooms.update(
                                player.at as int,
                                RoomV {
                                    inventory: room.inventory.update(ki, kettle2).push(
                                        hot_water_obj(),
                                    ),
                                    ..room
                                },
                            ),
                            msg: "You turn on the kettle. There is now hot water inside the kettle."@,
                        }
                    } else {
                        UseOutcome {
                            rooms,
                            msg: "You might need to put water into the kettle first."@,
                        }
                    }
                }
            } else if name == "watch"@ && has_object(player.inventory, "watch"@) {
                let elapsed = (now - start_time) as nat;
                UseOutcome {
                    rooms,
                    msg: "You glance at your watch. It reads "@ + dec_digits(7 + elapsed / 60)
                        + ":"@ + pad2(elapsed % 60) + "pm."@,
                }
            } else {
                UseOutcome { rooms, msg: cant_do_that_msg("use"@) }
            }
        },
    }
}

/// What talking leaves behind.
pub struct TalkOutcome {
    pub rooms: Seq<RoomV>,
    pub msg: Seq<char>,
}

/// The talk rule: the named character must be in the room; the first talk
/// answers with the first-time line and marks the character as met, later
/// talks answer with the repeat line.
pub open spec fn talk_spec(cmd: CommandV, player: PlayerV, rooms: Seq<RoomV>) -> TalkOutcome
    recommends
        player.at < rooms.len(),
{
    let room = rooms[player.at as int];
    match cmd.obj {
        None => TalkOutcome { rooms, msg: "Talk to what?"@ },
        Some(name) => {
            let ci = char_index(room.characters, name);
            if ci == -1 {
                TalkOutcome { rooms, msg: no_object_msg(name) }
            } else {
                let c = room.characters[ci];
                if !c.has_interacted {
                    TalkOutcome {
                        rooms: rooms.update(
                            player.at as int,
                            RoomV {
                                characters: room.characters.update(
                                    ci,
                                    CharacterV { has_interacted: true, ..c },
                                ),
                                ..room
                            },
                        ),
                        msg: c.on_talk,
                    }
                } else {
                    TalkOutcome { rooms, msg: c.on_talk_again }
                }
            }
        },
    }
}

/// What asking leaves behind.
pub struct AskOutcome {
    pub player_inv: Seq<ObjectV>,
    pub rooms: Seq<RoomV>,
    pub msg: Seq<char>,
}

/// The ask rule: the named character must be in the room, the preposition
/// must be "for", and the character must hold the asked-for object. A
/// takeable object moves to the player with the character's giving line; a
/// fixed one is refused.
pub open spec fn ask_spec(cmd: CommandV, player: PlayerV, rooms: Seq<RoomV>) -> AskOutcome
    recommends
        player.at < rooms.len(),
{
    let room = rooms[player.at as int];
    let unchanged = AskOutcome { player_inv: player.inventory, rooms, msg: Seq::empty() };
    match cmd.obj {
        None => AskOutcome { msg: "Ask who?"@, ..unchanged },
        Some(cname) => {
            let ci = char_index(room.characters, cname);
            if ci == -1 {
                AskOutcome { msg: no_object_msg(cname), ..unchanged }
            } else {
                let prep = match cmd.prep {
                    Some(p) => p,
                    None => Seq::empty(),
                };
                if prep != "for"@ {
                    AskOutcome { msg: didnt_understand_msg(prep), ..unchanged }
                } else {
                    let tname = match cmd.obj_prep {
                        Some(t) => t,
                        None => Seq::empty(),
                    };
                    let c = room.characters[ci];
                    let oi = obj_index(c.inventory, tname);
                    if oi == -1 {
                        AskOutcome { msg: doesnt_have_that_msg(cname), ..unchanged }
                    } else if c.inventory[oi].can_take {
                        AskOutcome {
                            player_inv: player.inventory.push(c.inventory[oi]),
                            rooms: rooms.update(
                                player.at as int,
                                RoomV {
                                    characters: room.characters.update(
                                        ci,
                                        CharacterV { inventory: c.inventory.remove(oi), ..c },
                                    ),
                                    ..room
                                },
                            ),
                            msg: c.on_ask + ". The "@ + cname + " gives you "@ + tname + "."@,
                        }
                    } else {
                        AskOutcome {
                            msg: "The "@ + cname + " can't give you that."@,
                            ..unchanged
                        }
                    }
                }
            }
        },
    }
}

/// What one dispatched command leaves behind.
pub struct DispatchOutcome {
    pub player: PlayerV,
    pub rooms: Seq<RoomV>,
    pub tea_time: Option<u64>,
    pub msg: Seq<char>,
}

/// The whole dispatcher: the verb (a missing verb counts as the empty word)
/// selects a handler, and an unknown verb changes nothing and answers that it
/// was not understood. Only the put verb can set the brew clock; the outcome
/// flags and the clock origin are never touched by dispatch.
pub open spec fn dispatch_spec(
    cmd: CommandV,
    player: PlayerV,
    rooms: Seq<RoomV>,
    tea_time: Option<u64>,
    start_time: u64,
    now: u64,
) -> DispatchOutcome
    recommends
        player.at < rooms.len(),
        rooms_wf(rooms),
        start_time <= now,
{
    let verb = match cmd.verb {
        Some(v) => v,
        None => Seq::empty(),
    };
    if is_direction(verb) {
        let o = go_spec(player, rooms, verb);
        DispatchOutcome { player: PlayerV { at: o.at, ..player }, rooms, tea_time, msg: o.msg }
    } else if verb == "examine"@ || verb == "x"@ || verb == "look"@ {
        let o = examine_spec(cmd, player, rooms);
        DispatchOutcome { player, rooms: o.rooms, tea_time, msg: o.msg }
    } else if verb == "take"@ || verb == "pickup"@ || verb == "get"@ {
        let o = take_spec(cmd, player, rooms);
        DispatchOutcome {
            player: PlayerV { inventory: o.player_inv, ..player },
            rooms: o.rooms,
            tea_time,
            msg: o.msg,
        }
    } else if verb == "inventory"@ || verb == "i"@ || verb == "items"@ {
        DispatchOutcome { player, rooms, tea_time, msg: inventory_msg_spec(player) }
    } else if verb == "put"@ || verb == "place"@ {
        let o = put_spec(cmd, player, rooms, tea_time, now);
        DispatchOutcome {
            player: PlayerV { inventory: o.player_inv, ..player },
            rooms: o.rooms,
            tea_time: o.tea_time,
            msg: o.msg,
        }
    } else if verb == "use"@ {
        let o = use_spec(cmd, player, rooms, start_time, now);
        DispatchOutcome { player, rooms: o.rooms, tea_time, msg: o.msg }
    } else if verb == "talk"@ {
        let o = talk_spec(cmd, player, rooms);
        DispatchOutcome { player, rooms: o.rooms, tea_time, msg: o.msg }
    } else if verb == "ask"@ {
        let o = ask_spec(cmd, player, rooms);
        DispatchOutcome {
            player: PlayerV { inventory: o.player_inv, ..player },
            rooms: o.rooms,
            tea_time,
            msg: o.msg,
        }
    } else {
        DispatchOutcome { player, rooms, tea_time, msg: didnt_understand_msg(verb) }
    }
}

/// The command dispatcher.
pub struct CommandHandler;

impl CommandHandler {
    /// Dispatches one parsed command. `now` is the current sample of the
    /// host's monotonic clock, on the same clock as `state.start_time`.
    pub fn handle_command(
        command: Command,
        player: &mut Player,
        rooms: &mut Vec<Room>,
        state: &mut GameState,
        now: u64,
    ) -> (r: CommandResult)
        requires
            old(player).at.0 < old(rooms)@.len(),
            rooms_wf(old(rooms).deep_view()),
            old(state).start_time <= now,
        ensures
            ({
                let o = dispatch_spec(
                    command@,
                    old(player)@,
                    old(rooms).deep_view(),
                    old(state).tea_time,
                    old(state).start_time,
                    now,
                );
                &&& final(player)@ == o.player
                &&& final(rooms).deep_view() == o.rooms
                &&& final(state).tea_time == o.tea_time
                &&& r.message@ == o.msg
            }),
            final(state).player_won == old(state).player_won,
            final(state).player_lost == old(state).player_lost,
            final(state).start_time == old(state).start_time,
            final(player).at.0 < old(rooms)@.len(),
            final(rooms)@.len() == old(rooms)@.len(),
    {
        let verb: String = match &command.verb {
            Some(v) => v.clone(),
            None => String::new(),
        };
        let v = verb.as_str();
        let r = if word_is_direction(v) {
            CommandHandler::handle_go(v, player, rooms)
        } else if str_eq(v, "examine") || str_eq(v, "x") || str_eq(v, "look") {
            CommandHandler::handle_examine(command, player, rooms)
        } else if str_eq(v, "take") || str_eq(v, "pickup") || str_eq(v, "get") {
            CommandHandler::handle_take(command, player, rooms)
        } else if str_eq(v, "inventory") || str_eq(v, "i") || str_eq(v, "items") {
            CommandHandler::handle_inventory(player)
        } else if str_eq(v, "put") || str_eq(v, "place") {
            CommandHandler::handle_put(command, player, rooms, &mut state.tea_time, now)
        } else if str_eq(v, "use") {
            CommandHandler::handle_use(command, player, rooms, state.start_time, now)
        } else if str_eq(v, "talk") {
            CommandHandler::handle_talk(command, player, rooms)
        } else if str_eq(v, "ask") {
            CommandHandler::handle_ask(command, player, rooms)
        } else {
            CommandResult::didnt_understand(verb)
        };
        proof {
            assert(rooms.deep_view().len() == rooms@.len());
            assert(old(rooms).deep_view().len() == old(rooms)@.len());
        }
        r
    }

    /// Movement: resolves a door by direction in the player's current room
    /// and walks through it if it is open.
    pub fn handle_go(direction: &str, player: &mut Player, rooms: &mut Vec<Room>) -> (r:
        CommandResult)
        requires
            old(player).at.0 < old(rooms)@.len(),
            rooms_wf(old(rooms).deep_view()),
        ensures
            final(rooms).deep_view() == old(rooms).deep_view(),
            final(player)@.inventory == old(player)@.inventory,
            final(player)@.name == old(player)@.name,
            final(player)@.desc == old(player)@.desc,
            final(player)@.at == go_spec(old(player)@, old(rooms).deep_view(), direction@).at,
            r.message@ == go_spec(old(player)@, old(rooms).deep_view(), direction@).msg,
            final(player).at.0 < old(rooms)@.len(),
    {
        let ghost roomsv = rooms.deep_view();
        let door = player.get_curr_room(rooms).get_door(direction);
        match door {
            Some(door) => {
                if door.is_open {
                    let target = door.target;
                    let door_msg: String = match &door.msg_on_open {
                        Some(m) => m.clone(),
                        None => String::new(),
                    };
                    proof {
                        assert(roomsv[old(player)@.at as int].doors[door_index(
                            roomsv[old(player)@.at as int].doors,
                            direction@,
                        )].target < roomsv.len());
                    }
                    player.go(target);
                    let curr_room = player.get_curr_room(rooms);
                    let room_name = curr_room.get_display_name();
                    let room_msg = curr_room.desc.clone();
                    let msg = if door_msg.as_str().is_empty() {
                        room_name.concat("\n").concat(room_msg.as_str())
                    } else {
                        room_name.concat("\n").concat(door_msg.as_str()).concat("\n").concat(
                            room_msg.as_str(),
                        )
                    };
                    CommandResult { message: msg }
                } else {
                    let msg: String = match &door.msg_on_closed {
                        Some(m) => m.clone(),
                        None => String::new(),
                    };
                    CommandResult { message: msg }
                }
            },
            None => CommandResult { message: String::from_str("You can't go that way.") },
        }
    }

    /// Examine: describes the room, the player, a carried object, a room
    /// object (revealing its nested contents as takeable) or a character.
    pub fn handle_examine(command: Command, player: &mut Player, rooms: &mut Vec<Room>) -> (r:
        CommandResult)
        requires
            old(player).at.0 < old(rooms)@.len(),
        ensures
            final(player)@ == old(player)@,
            final(rooms).deep_view() == examine_spec(
                command@,
                old(player)@,
                old(rooms).deep_view(),
            ).rooms,
            r.message@ == examine_spec(command@, old(player)@, old(rooms).deep_view()).msg,
    {
        let ghost roomsv = rooms.deep_view();
        let at = player.at.0;
        match &command.obj {
            None => CommandResult { message: rooms[at].desc.clone() },
            Some(object_name) => {
                let name = object_name.as_str();
                if str_eq(name, "me") || str_eq(name, "myself") {
                    CommandResult { message: player.desc.clone() }
                } else {
                    let in_pockets = player.find_object(name);
                    match in_pockets {
                        Some(object) => CommandResult { message: object.desc.clone() },
                        None => {
                            let found = rooms[at].inventory.find_object_pos(name);
                            match found {
                                Some(pos) => {
                                    proof {
                                        lemma_obj_index(roomsv[at as int].inventory, name@);
                                    }
                                    let desc = rooms[at].inventory.objects[pos].desc.clone();
                                    let names = copy_strings(
                                        &rooms[at].inventory.objects[pos].inventory,
                                    );
                                    if names.is_empty() {
                                        proof {
                                            assert(names.deep_view() =~= Seq::<Seq<char>>::empty());
                                        }
                                        CommandResult { message: desc }
                                    } else {
                                        let room = &mut rooms[at];
                                        room.inventory.reveal_names(&names);
                                        proof {
                                            assert(rooms.deep_view() =~= roomsv.update(
                                                at as int,
                                                RoomV {
                                                    inventory: reveal_all(
                                                        roomsv[at as int].inventory,
                                                        roomsv[at as int].inventory[obj_index(
                                                            roomsv[at as int].inventory,
                                                            name@,
                                                        )].inventory,
                                                    ),
                                                    ..roomsv[at as int]
                                                },
                                            ));
                                        }
                                        let msg = desc.concat("\nYou can now take: ").concat(
                                            join_names(&names, ", ").as_str(),
                                        ).concat(".");
                                        CommandResult { message: msg }
                                    }
                                },
                                None => {
                                    let character = rooms[at].find_character(name);
                                    match character {
                                        Some(c) => CommandResult { message: c.desc.clone() },
                                        None => CommandResult::cant_do_that(
                                            String::from_str("do"),
                                        ),
                                    }
                                },
                            }
                        },
                    }
                }
            },
        }
    }

    /// Take: moves a takeable object from the room's flat inventory into the
    /// player's pockets.
    pub fn handle_take(command: Command, player: &mut Player, rooms: &mut Vec<Room>) -> (r:
        CommandResult)
        requires
            old(player).at.0 < old(rooms)@.len(),
        ensures
            final(player)@.inventory == take_spec(
                command@,
                old(player)@,
                old(rooms).deep_view(),
            ).player_inv,
            final(player)@.at == old(player)@.at,
            final(player)@.name == old(player)@.name,
            final(player)@.desc == old(player)@.desc,
            final(rooms).deep_view() == take_spec(command@, old(player)@, old(rooms).deep_view()).rooms,
            r.message@ == take_spec(command@, old(player)@, old(rooms).deep_view()).msg,
            final(player).at.0 < old(rooms)@.len(),
    {
        let ghost roomsv = rooms.deep_view();
        let at = player.at.0;
        match &command.obj {
            None => CommandResult { message: String::from_str("You can't take nothing!") },
            Some(object_name) => {
                let room = &mut rooms[at];
                let removed = room.inventory.remove(object_name.as_str());
                match removed {
                    Some(object) => {
                        room.inventory.scrub_nested_name(object_name.as_str());
                        player.take_object(object);
                        proof {
                            let i = obj_index(roomsv[at as int].inventory, object_name@);
                            assert(rooms.deep_view() =~= roomsv.update(
                                at as int,
                                RoomV {
                                    inventory: scrub_spec(
                                        roomsv[at as int].inventory.remove(i),
                                        object_name@,
                                    ),
                                    ..roomsv[at as int]
                                },
                            ));
                        }
                        CommandResult {
                            message: String::from_str("You take the ").concat(
                                object_name.as_str(),
                            ).concat("."),
                        }
                    },
                    None => {
                        proof {
                            assert(rooms.deep_view() =~= roomsv);
                        }
                        CommandResult::cant_do_that(String::from_str("do"))
                    },
                }
            },
        }
    }

    /// Put: moves a carried object into a container that accepts it, and
    /// starts the brew clock when the mug ends up holding both hot water and
    /// a tea bag.
    #[verifier::rlimit(60)]
    pub fn handle_put(
        command: Command,
        player: &mut Player,
        rooms: &mut Vec<Room>,
        tea_time: &mut Option<u64>,
        now: u64,
    ) -> (r: CommandResult)
        requires
            old(player).at.0 < old(rooms)@.len(),
        ensures
            ({
                let o = put_spec(
                    command@,
                    old(player)@,
                    old(rooms).deep_view(),
                    *old(tea_time),
                    now,
                );
                &&& final(player)@.inventory == o.player_inv
                &&& final(rooms).deep_view() == o.rooms
                &&& *final(tea_time) == o.tea_time
                &&& r.message@ == o.msg
            }),
            final(player)@.at == old(player)@.at,
            final(player)@.name == old(player)@.name,
            final(player)@.desc == old(player)@.desc,
    {
        let ghost roomsv = rooms.deep_view();
        let at = player.at.0;
        match &command.obj {
            None => CommandResult { message: String::from_str("You can't put nothing!") },
            Some(object_name) => {
                let name = object_name.as_str();
                let pi = player.inventory.find_object_pos(name);
                match pi {
                    None => CommandResult {
                        message: String::from_str("You don't have ").concat(name).concat("."),
                    },
                    Some(pidx) => {
                        let prep: String = match &command.prep {
                            Some(p) => p.clone(),
                            None => String::new(),
                        };
                        if !(str_eq(prep.as_str(), "in") || str_eq(prep.as_str(), "into")
                            || str_eq(prep.as_str(), "inside")) {
                            CommandResult::didnt_understand(prep)
                        } else {
                            let tname_string: String = match &command.obj_prep {
                                Some(t) => t.clone(),
                                None => String::new(),
                            };
                            let tname = tname_string.as_str();
                            if !player.has(tname) && !rooms[at].has(tname) {
                                CommandResult::cant_do_that(String::from_str("do"))
                            } else {
                                proof {
                                    lemma_obj_index(old(player)@.inventory, name@);
                                }
                                let object = player.inventory.objects.remove(pidx);
                                let ghost post_inv = player@.inventory;
                                proof {
                                    assert(post_inv =~= old(player)@.inventory.remove(
                                        pidx as int,
                                    ));
                                }
                                let cpos = player.inventory.find_object_pos(tname);
                                match cpos {
                                    Some(ci) => {
                                        if names_contain(
                                            &player.inventory.objects[ci].accepts,
                                            name,
                                        ) {
                                            player.inventory.objects[ci].inventory.push(
                                                object_name.clone(),
                                            );
                                            proof {
                                                assert(player@.inventory =~~= post_inv.update(
                                                    ci as int,
                                                    ObjectV {
                                                        inventory: post_inv[ci as int].inventory.push(
                                                            object_name@,
                                                        ),
                                                        ..post_inv[ci as int]
                                                    },
                                                ));
                                            }
                                            let is_mug = str_eq(tname, "mug");
                                            let hot = names_contain(
                                                &player.inventory.objects[ci].inventory,
                                                "hot water",
                                            );
                                            let tea = names_contain(
                                                &player.inventory.objects[ci].inventory,
                                                "tea bag",
                                            );
                                            if is_mug && hot && tea {
                                                *tea_time = Some(now);
                                            }
                                            proof {
                                                let name_v = object_name@;
                                                let prep_v = match command@.prep {
                                                    Some(p) => p,
                                                    None => Seq::<char>::empty(),
                                                };
                                                let tname_v = match command@.obj_prep {
                                                    Some(t) => t,
                                                    None => Seq::<char>::empty(),
                                                };
                                                assert(command@.obj == Some(name_v));
                                                assert(is_put_preposition(prep_v));
                                                assert(tname_v == tname@);
                                                let pi = obj_index(
                                                    old(player)@.inventory,
                                                    name_v,
                                                );
                                                assert(pi == pidx as int);
                                                let post = old(player)@.inventory.remove(pi);
                                                assert(post == post_inv);
                                                assert(has_object(post, tname_v));
                                                let ci_s = obj_index(post, tname_v);
                                                assert(ci_s == ci as int);
                                                let c = post[ci_s];
                                                assert(c.accepts.contains(name_v));
                                                let c2 = ObjectV {
                                                    inventory: c.inventory.push(name_v),
                                                    ..c
                                                };
                                                assert(player@.inventory[ci as int] == c2);
                                                let o = put_spec(
                                                    command@,
                                                    old(player)@,
                                                    roomsv,
                                                    *old(tea_time),
                                                    now,
                                                );
                                                assert(o.tea_time == put_tea_time(
                                                    tname_v,
                                                    c2,
                                                    *old(tea_time),
                                                    now,
                                                ));
                                                assert(*tea_time == o.tea_time);
                                            }
                                            CommandResult {
                                                message: String::from_str("You put ").concat(
                                                    name,
                                                ).concat(" into ").concat(tname).concat("."),
                                            }
                                        } else {
                                            player.inventory.objects.insert(pidx, object);
                                            proof {
                                                assert(player@.inventory =~= old(
                                                    player,
                                                )@.inventory);
                                            }
                                            CommandResult::cant_do_that(String::from_str("do"))
                                        }
                                    },
                                    None => {
                                        let rpos = rooms[at].inventory.find_object_pos(tname);
                                        match rpos {
                                            Some(ci) => {
                                                if names_contain(
                                                    &rooms[at].inventory.objects[ci].accepts,
                                                    name,
                                                ) {
                                                    rooms[at].inventory.objects[ci].inventory.push(
                                                        object_name.clone(),
                                                    );
                                                    let is_mug = str_eq(tname, "mug");
                                                    let hot = names_contain(
                                                        &rooms[at].inventory.objects[ci].inventory,
                                                        "hot water",
                                                    );
                                                    let tea = names_contain(
                                                        &rooms[at].inventory.objects[ci].inventory,
                                                        "tea bag",
                                                    );
                                                    if is_mug && hot && tea {
                                                        *tea_time = Some(now);
                                                    }
                                                    proof {
                                                        let name_v = object_name@;
                                                        let tname_v = tname_string@;
                                                        let pi = obj_index(
                                                            old(player)@.inventory,
                                                            name_v,
                                                        );
                                                        assert(pi == pidx as int);
                                                        let post = old(
                                                            player,
                                                        )@.inventory.remove(pi);
                                                        assert(post == post_inv);
                                                        assert(player@.inventory == post);
                                                        assert(obj_index(post, tname_v) == -1);
                                                        let ci_s = obj_index(
                                                            roomsv[at as int].inventory,
                                                            tname_v,
                                                        );
                                                        assert(ci_s == ci as int);
                                                        let c = roomsv[at as int].inventory[ci_s];
                                                        assert(c.accepts.contains(name_v));
                                                        let c2 = ObjectV {
                                                            inventory: c.inventory.push(name_v),
                                                            ..c
                                                        };
                                                        assert(rooms.deep_view()[at as int].inventory[ci as int]
                                                            =~~= c2);
                                                        assert(rooms.deep_view() =~~= roomsv.update(
                                                            at as int,
                                                            RoomV {
                                                                inventory: roomsv[at as int].inventory.update(
                                                                    ci_s,
                                                                    c2,
                                                                ),
                                                                ..roomsv[at as int]
                                                            },
                                                        ));
                                                        let o = put_spec(
                                                            command@,
                                                            old(player)@,
                                                            roomsv,
                                                            *old(tea_time),
                                                            now,
                                                        );
                                                        assert(o.tea_time == put_tea_time(
                                                            tname_v,
                                                            c2,
                                                            *old(tea_time),
                                                            now,
                                                        ));
                                                        assert(*tea_time == o.tea_time);
                                                    }
                                                    CommandResult {
                                                        message: String::from_str(
                                                            "You put ",
                                                        ).concat(name).concat(" into ").concat(
                                                            tname,
                                                        ).concat("."),
                                                    }
                                                } else {
                                                    player.inventory.objects.insert(
                                                        pidx,
                                                        object,
                                                    );
                                                    proof {
                                                        assert(player@.inventory =~= old(
                                                            player,
                                                        )@.inventory);
                                                    }
                                                    CommandResult::cant_do_that(
                                                        String::from_str("do"),
                                                    )
                                                }
                                            },
                                            None => {
                                                player.inventory.objects.insert(pidx, object);
                                                proof {
                                                    assert(player@.inventory =~= old(
                                                        player,
                                                    )@.inventory);
                                                }
                                                CommandResult::cant_do_that(
                                                    String::from_str("do"),
                                                )
                                            },
                                        }
                                    },
                                }
                            }
                        }
                    },
                }
            },
        }
    }

    /// Use: the closed table of per-object behaviours (the kettle and the
    /// watch).
    pub fn handle_use(
        command: Command,
        player: &mut Player,
        rooms: &mut Vec<Room>,
        start_time: u64,
        now: u64,
    ) -> (r: CommandResult)
        requires
            old(player).at.0 < old(rooms)@.len(),
            start_time <= now,
        ensures
            final(player)@ == old(player)@,
            final(rooms).deep_view() == use_spec(
                command@,
                old(player)@,
                old(rooms).deep_view(),
                start_time,
                now,
            ).rooms,
            r.message@ == use_spec(
                command@,
                old(player)@,
                old(rooms).deep_view(),
                start_time,
                now,
            ).msg,
    {
        let ghost roomsv = rooms.deep_view();
        let at = player.at.0;
        match &command.obj {
            None => CommandResult { message: String::from_str("Use what?") },
            Some(object_name) => {
                let name = object_name.as_str();
                if str_eq(name, "kettle") {
                    let kpos = rooms[at].inventory.find_object_pos("kettle");
                    match kpos {
                        None => CommandResult::no_object(String::from_str("kettle")),
                        Some(ki) => {
                            if names_contain(&rooms[at].inventory.objects[ki].inventory, "water") {
                                let mut contents: Vec<String> = Vec::new();
                                contents.push(String::from_str("hot water"));
                                proof {
                                    assert(contents.deep_view() =~= seq!["hot water"@]);
                                }
                                rooms[at].inventory.objects[ki].inventory = contents;
                                let hot_water = Object {
                                    name: String::from_str("hot water"),
                                    desc: String::from_str("hot water"),
                                    inventory: Vec::new(),
                                    accepts: Vec::new(),
                                    can_take: true,
                                    can_use: false,
                                    msg_on_take: None,
                                    msg_on_use: None,
                                };
                                proof {
                                    assert(hot_water@ =~~= hot_water_obj());
                                }
                                rooms[at].inventory.objects.push(hot_water);
                                proof {
                                    let ki_s = obj_index(roomsv[at as int].inventory, "kettle"@);
                                    assert(ki_s == ki as int);
                                    assert(rooms.deep_view() =~~= roomsv.update(
                                        at as int,
                                        RoomV {
                                            inventory: roomsv[at as int].inventory.update(
                                                ki_s,
                                                ObjectV {
                                                    inventory: seq!["hot water"@],
                                                    ..roomsv[at as int].inventory[ki_s]
                                                },
                                            ).push(hot_water_obj()),
                                            ..roomsv[at as int]
                                        },
                                    ));
                                }
                                CommandResult {
                                    message: String::from_str(
                                        "You turn on the kettle. There is now hot water inside the kettle.",
                                    ),
                                }
                            } else {
                                CommandResult {
                                    message: String::from_str(
                                        "You might need to put water into the kettle first.",
                                    ),
                                }
                            }
                        },
                    }
                } else {
                    let uses_watch = str_eq(name, "watch") && player.has("watch");
                    if uses_watch {
                        let elapsed = now - start_time;
                        proof {
                            assert(60 * (elapsed / 60) <= elapsed);
                        }
                        let hour = 7 + elapsed / 60;
                        let minute = elapsed % 60;
                        let minute_str = if minute < 10 {
                            String::from_str("0").concat(u64_to_dec(minute).as_str())
                        } else {
                            u64_to_dec(minute)
                        };
                        CommandResult {
                            message: String::from_str("You glance at your watch. It reads ").concat(
                                u64_to_dec(hour).as_str(),
                            ).concat(":").concat(minute_str.as_str()).concat("pm."),
                        }
                    } else {
                        CommandResult::cant_do_that(String::from_str("use"))
                    }
                }
            },
        }
    }

    /// Talk: the first talk with a character gets its first-time line and
    /// marks it as met; later talks get the repeat line.
    pub fn handle_talk(command: Command, player: &mut Player, rooms: &mut Vec<Room>) -> (r:
        CommandResult)
        requires
            old(player).at.0 < old(rooms)@.len(),
        ensures
            final(player)@ == old(player)@,
            final(rooms).deep_view() == talk_spec(
                command@,
                old(player)@,
                old(rooms).deep_view(),
            ).rooms,
            r.message@ == talk_spec(command@, old(player)@, old(rooms).deep_view()).msg,
    {
        let ghost roomsv = rooms.deep_view();
        let at = player.at.0;
        match &command.obj {
            None => CommandResult { message: String::from_str("Talk to what?") },
            Some(object_name) => {
                let name = object_name.as_str();
                let cpos = rooms[at].find_character_pos(name);
                match cpos {
                    None => CommandResult::no_object(object_name.clone()),
                    Some(ci) => {
                        if !rooms[at].characters[ci].has_interacted {
                            let msg = rooms[at].characters[ci].on_talk.clone();
                            rooms[at].characters[ci].has_interacted = true;
                            proof {
                                assert(rooms.deep_view() =~~= roomsv.update(
                                    at as int,
                                    RoomV {
                                        characters: roomsv[at as int].characters.update(
                                            ci as int,
                                            CharacterV {
                                                has_interacted: true,
                                                ..roomsv[at as int].characters[ci as int]
                                            },
                                        ),
                                        ..roomsv[at as int]
                                    },
                                ));
                            }
                            CommandResult { message: msg }
                        } else {
                            CommandResult { message: rooms[at].characters[ci].on_talk_again.clone() }
                        }
                    },
                }
            },
        }
    }

    /// Ask: a character hands over a takeable object it holds when asked
    /// "for" it.
    pub fn handle_ask(command: Command, player: &mut Player, rooms: &mut Vec<Room>) -> (r:
        CommandResult)
        requires
            old(player).at.0 < old(rooms)@.len(),
        ensures
            ({
                let o = ask_spec(command@, old(player)@, old(rooms).deep_view());
                &&& final(player)@.inventory == o.player_inv
                &&& final(rooms).deep_view() == o.rooms
                &&& r.message@ == o.msg
            }),
            final(player)@.at == old(player)@.at,
            final(player)@.name == old(player)@.name,
            final(player)@.desc == old(player)@.desc,
    {
        let ghost roomsv = rooms.deep_view();
        let at = player.at.0;
        match &command.obj {
            None => CommandResult { message: String::from_str("Ask who?") },
            Some(character_name) => {
                let cname = character_name.as_str();
                let cpos = rooms[at].find_character_pos(cname);
                match cpos {
                    None => CommandResult::no_object(character_name.clone()),
                    Some(ci) => {
                        let prep: String = match &command.prep {
                            Some(p) => p.clone(),
                            None => String::new(),
                        };
                        if !str_eq(prep.as_str(), "for") {
                            CommandResult::didnt_understand(prep)
                        } else {
                            let tname_string: String = match &command.obj_prep {
                                Some(t) => t.clone(),
                                None => String::new(),
                            };
                            let tname = tname_string.as_str();
                            let opos = rooms[at].characters[ci].inventory.find_object_pos(tname);
                            match opos {
                                None => CommandResult::doesnt_have_that(character_name.clone()),
                                Some(oi) => {
                                    if rooms[at].characters[ci].inventory.objects[oi].can_take {
                                        let on_ask = rooms[at].characters[ci].on_ask.clone();
                                        let object = rooms[at].characters[ci].inventory.objects.remove(
                                            oi,
                                        );
                                        player.take_object(object);
                                        proof {
                                            let ci_s = char_index(
                                                roomsv[at as int].characters,
                                                cname@,
                                            );
                                            assert(ci_s == ci as int);
                                            let c = roomsv[at as int].characters[ci_s];
                                            let oi_s = obj_index(c.inventory, tname@);
                                            assert(oi_s == oi as int);
                                            assert(rooms.deep_view() =~~= roomsv.update(
                                                at as int,
                                                RoomV {
                                                    characters: roomsv[at as int].characters.update(
                                                        ci_s,
                                                        CharacterV {
                                                            inventory: c.inventory.remove(oi_s),
                                                            ..c
                                                        },
                                                    ),
                                                    ..roomsv[at as int]
                                                },
                                            ));
                                            assert(player@.inventory =~~= old(
                                                player,
                                            )@.inventory.push(c.inventory[oi_s]));
                                        }
                                        CommandResult {
                                            message: on_ask.concat(". The ").concat(cname).concat(
                                                " gives you ",
                                            ).concat(tname).concat("."),
                                        }
                                    } else {
                                        CommandResult {
                                            message: String::from_str("The ").concat(
                                                cname,
                                            ).concat(" can't give you that."),
                                        }
                                    }
                                },
                            }
                        }
                    },
                }
            },
        }
    }

    /// Lists the player's pockets.
    pub fn handle_inventory(player: &mut Player) -> (r: CommandResult)
        ensures
            final(player)@ == old(player)@,
            r.message@ == inventory_msg_spec(old(player)@),
    {
        let objects_str = player.list_objects();
        if objects_str.as_str().is_empty() {
            CommandResult { message: String::from_str("Your pockets are empty.") }
        } else {
            CommandResult {
                message: String::from_str("Here are the contents of your pockets:\n\t- ").concat(
                    objects_str.as_str(),
                ),
            }
        }
    }
}

} // verus!
