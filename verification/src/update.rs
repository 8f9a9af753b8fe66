//! The once-per-turn, time-triggered update step: the hallway-door unlock,
//! the session timeout, the brew completion and the win condition.
//!
//! Precedence when several triggers could fire on the same call: the loss
//! check runs first, and once `player_lost` is set the win condition is not
//! awarded on the same or any later call. Both outcome flags are write-once:
//! no call of [`update`] ever clears either of them.

use vstd::prelude::*;
use vstd::string::StringExecFns;
use crate::door::{door_to_index, lemma_door_to_index, DoorV};
use crate::entity::{names_contain, remove_name, ObjectV};
use crate::game_state::GameState;
use crate::inventory::{lemma_obj_index, obj_index, remove_first_name};
use crate::player::{Player, PlayerV};
use crate::room::{Room, RoomID, RoomV};
use crate::util::{lemma_name_index, name_index};

verus! {

/// Session length in seconds: reaching it loses the game.
pub const GAME_LENGTH: u64 = 300;

/// Seconds after which the time-gated hallway door is forced open.
pub const DOOR_CLOSED_LENGTH: u64 = 180;

/// Seconds the tea must steep after the brew clock starts.
pub const TEA_BREW_LENGTH: u64 = 60;

/// Index of the room holding the time-gated door (the hallway).
pub const LOCKED_DOOR_ROOM: usize = 2;

/// Room the time-gated door leads to (the neighbour's unit).
pub const LOCKED_DOOR_TARGET: usize = 3;

/// The rooms after the door unlock: past the threshold, the first door of
/// the hallway that leads to the neighbour's unit is forced open. Setting an
/// open door open again changes nothing, so the trigger is idempotent.
pub open spec fn unlock_spec(rooms: Seq<RoomV>, elapsed: int) -> Seq<RoomV> {
    if elapsed > DOOR_CLOSED_LENGTH && LOCKED_DOOR_ROOM < rooms.len() {
        let room = rooms[LOCKED_DOOR_ROOM as int];
        let di = door_to_index(room.doors, LOCKED_DOOR_TARGET as nat);
        if di >= 0 {
            rooms.update(
                LOCKED_DOOR_ROOM as int,
                RoomV {
                    doors: room.doors.update(di, DoorV { is_open: true, ..room.doors[di] }),
                    ..room
                },
            )
        } else {
            rooms
        }
    } else {
        rooms
    }
}

/// True exactly when the brew completes on this call: the brew clock has
/// been started and has run past the threshold, and the player carries the
/// mug still holding both ingredients.
pub open spec fn brew_fires(inv: Seq<ObjectV>, tea_time: Option<u64>, now: u64) -> bool {
    match tea_time {
        Some(t) => {
            let mi = obj_index(inv, "mug"@);
            &&& now - t > TEA_BREW_LENGTH
            &&& mi >= 0
            &&& inv[mi].inventory.contains("hot water"@)
            &&& inv[mi].inventory.contains("tea bag"@)
        },
        None => false,
    }
}

/// The player's inventory after the brew completes: both ingredient names
/// leave the mug's nested list, one "brewed tea" enters it, and the mug
/// itself takes the name "brewed tea" — a one-shot transformation, since the
/// renamed mug no longer matches the brew condition.
pub open spec fn brew_spec(inv: Seq<ObjectV>, tea_time: Option<u64>, now: u64) -> Seq<ObjectV> {
    if brew_fires(inv, tea_time, now) {
        let mi = obj_index(inv, "mug"@);
        inv.update(
            mi,
            ObjectV {
                name: "brewed tea"@,
                inventory: remove_first_name(
                    remove_first_name(inv[mi].inventory, "hot water"@),
                    "tea bag"@,
                ).push("brewed tea"@),
                ..inv[mi]
            },
        )
    } else {
        inv
    }
}

/// The narration shown when the brew completes.
pub open spec fn brew_msg() -> Seq<char> {
    "Your tea is brewed, but you would really like some sugar. Maybe your neighbor in Unit 11 has some..."@
}

/// What one update call leaves behind.
pub struct UpdateOutcome {
    pub player_inv: Seq<ObjectV>,
    pub rooms: Seq<RoomV>,
    pub player_won: bool,
    pub player_lost: bool,
    pub msg: Option<Seq<char>>,
}

/// The whole update step. The loss flag is set once the elapsed session
/// time reaches the configured game length; the win flag is set once the
/// player's "brewed tea" object holds "sugar" — unless the loss flag is (or
/// just became) set, which locks the win out. Neither flag is ever cleared,
/// and the brew clock is never reset.
pub open spec fn update_spec(player: PlayerV, rooms: Seq<RoomV>, state: GameState, now: u64) -> UpdateOutcome {
    let elapsed = now - state.start_time;
    let rooms2 = unlock_spec(rooms, elapsed);
    let lost2 = state.player_lost || elapsed >= GAME_LENGTH;
    let inv2 = brew_spec(player.inventory, state.tea_time, now);
    let bi = obj_index(inv2, "brewed tea"@);
    let won2 = state.player_won || (!lost2 && bi >= 0 && inv2[bi].inventory.contains("sugar"@));
    UpdateOutcome {
        player_inv: inv2,
        rooms: rooms2,
        player_won: won2,
        player_lost: lost2,
        msg: if brew_fires(player.inventory, state.tea_time, now) {
            Some(brew_msg())
        } else {
            None
        },
    }
}

/// Law: the outcome flags are write-once — no update call ever clears a
/// flag that is already set.
pub proof fn lemma_flags_write_once(
    player: PlayerV,
    rooms: Seq<RoomV>,
    state: GameState,
    now: u64,
)
    ensures
        state.player_won ==> update_spec(player, rooms, state, now).player_won,
        state.player_lost ==> update_spec(player, rooms, state, now).player_lost,
{
}

/// Law (win): while the session clock has not run out, once the player's
/// "brewed tea" object — the renamed mug — holds "sugar", the next update
/// call sets `player_won`.
pub proof fn lemma_win_set(player: PlayerV, rooms: Seq<RoomV>, state: GameState, now: u64)
    requires
        !state.player_lost,
        state.start_time <= now,
        now - state.start_time < GAME_LENGTH,
        !brew_fires(player.inventory, state.tea_time, now),
        ({
            let bi = obj_index(player.inventory, "brewed tea"@);
            bi >= 0 && player.inventory[bi].inventory.contains("sugar"@)
        }),
    ensures
        update_spec(player, rooms, state, now).player_won,
{
}

/// Law (lockout): once the elapsed session time reaches the configured game
/// length, the update call sets `player_lost` — even when the win condition
/// would fire on the same call. The loss check takes precedence: in that
/// case `player_won` stays exactly as it was and no new win is awarded.
pub proof fn lemma_lockout(player: PlayerV, rooms: Seq<RoomV>, state: GameState, now: u64)
    requires
        state.start_time <= now,
        now - state.start_time >= GAME_LENGTH,
    ensures
        update_spec(player, rooms, state, now).player_lost,
        update_spec(player, rooms, state, now).player_won == state.player_won,
{
}

/// Re-evaluates the time-gated triggers; called once per turn after
/// dispatch. Returns the brew narration when the tea completes on this
/// call, for the host to print.
pub fn update(player: &mut Player, rooms: &mut Vec<Room>, state: &mut GameState, now: u64) -> (r:
    Option<String>)
    requires
        old(state).start_time <= now,
        old(state).tea_time matches Some(t) ==> t <= now,
    ensures
        ({
            let o = update_spec(old(player)@, old(rooms).deep_view(), *old(state), now);
            &&& final(player)@.inventory == o.player_inv
            &&& final(rooms).deep_view() == o.rooms
            &&& final(state).player_won == o.player_won
            &&& final(state).player_lost == o.player_lost
            &&& match r {
                Some(m) => o.msg == Some(m@),
                None => o.msg is None,
            }
        }),
        final(player)@.at == old(player)@.at,
        final(player)@.name == old(player)@.name,
        final(player)@.desc == old(player)@.desc,
        final(state).start_time == old(state).start_time,
        final(state).tea_time == old(state).tea_time,
        final(rooms)@.len() == old(rooms)@.len(),
{
    let ghost roomsv = rooms.deep_view();
    let elapsed = now - state.start_time;

    // Door unlock.
    if elapsed > DOOR_CLOSED_LENGTH && rooms.len() > LOCKED_DOOR_ROOM {
        let n = rooms[LOCKED_DOOR_ROOM].doors.len();
        let mut i: usize = 0;
        let mut found = n;
        while i < n
            invariant
                n == rooms@[LOCKED_DOOR_ROOM as int].doors@.len(),
                rooms@ == old(rooms)@,
                i <= n,
                found == n,
                forall|j: int|
                    0 <= j < i ==> (#[trigger] roomsv[LOCKED_DOOR_ROOM as int].doors[j]).target
                        != LOCKED_DOOR_TARGET as nat,
            decreases n - i,
        {
            if rooms[LOCKED_DOOR_ROOM].doors[i].target == RoomID(LOCKED_DOOR_TARGET) {
                found = i;
                break ;
            }
            i += 1;
        }
        if found < n {
            proof {
                lemma_door_to_index(
                    roomsv[LOCKED_DOOR_ROOM as int].doors,
                    LOCKED_DOOR_TARGET as nat,
                );
                let di = door_to_index(
                    roomsv[LOCKED_DOOR_ROOM as int].doors,
                    LOCKED_DOOR_TARGET as nat,
                );
                assert(roomsv[LOCKED_DOOR_ROOM as int].doors[found as int].target
                    == LOCKED_DOOR_TARGET as nat);
                if di < found {
                    assert(roomsv[LOCKED_DOOR_ROOM as int].doors[di].target != LOCKED_DOOR_TARGET
                        as nat);
                } else if di > found {
                    assert(roomsv[LOCKED_DOOR_ROOM as int].doors[found as int].target
                        != LOCKED_DOOR_TARGET as nat);
                }
                assert(di == found);
            }
            rooms[LOCKED_DOOR_ROOM].doors[found].is_open = true;
            proof {
                let room = roomsv[LOCKED_DOOR_ROOM as int];
                assert(rooms.deep_view() =~~= roomsv.update(
                    LOCKED_DOOR_ROOM as int,
                    RoomV {
                        doors: room.doors.update(
                            found as int,
                            DoorV { is_open: true, ..room.doors[found as int] },
                        ),
                        ..room
                    },
                ));
            }
        } else {
            proof {
                lemma_door_to_index(
                    roomsv[LOCKED_DOOR_ROOM as int].doors,
                    LOCKED_DOOR_TARGET as nat,
                );
                assert(rooms.deep_view() =~= unlock_spec(roomsv, elapsed as int));
            }
        }
    } else {
        proof {
            assert(rooms.deep_view() =~= unlock_spec(roomsv, elapsed as int));
        }
    }

    // Session timeout: loss takes precedence over a simultaneous win.
    if elapsed >= GAME_LENGTH {
        state.player_lost = true;
    }

    // Brew completion.
    let mut msg: Option<String> = None;
    let tea_started = match &state.tea_time {
        Some(t) => now - *t > TEA_BREW_LENGTH,
        None => false,
    };
    if tea_started {
        let mpos = player.inventory.find_object_pos("mug");
        match mpos {
            Some(mi) => {
                let hot = names_contain(&player.inventory.objects[mi].inventory, "hot water");
                let tea = names_contain(&player.inventory.objects[mi].inventory, "tea bag");
                if hot && tea {
                    proof {
                        lemma_name_index(
                            old(player)@.inventory[mi as int].inventory,
                            "hot water"@,
                        );
                    }
                    remove_name(&mut player.inventory.objects[mi].inventory, "hot water");
                    proof {
                        lemma_name_index(player@.inventory[mi as int].inventory, "tea bag"@);
                    }
                    remove_name(&mut player.inventory.objects[mi].inventory, "tea bag");
                    player.inventory.objects[mi].inventory.push(String::from_str("brewed tea"));
                    player.inventory.objects[mi].name = String::from_str("brewed tea");
                    proof {
                        let inv0 = old(player)@.inventory;
                        assert(brew_fires(inv0, old(state).tea_time, now));
                        assert(player@.inventory =~~= brew_spec(inv0, old(state).tea_time, now));
                    }
                    msg = Some(
                        String::from_str(
                            "Your tea is brewed, but you would really like some sugar. Maybe your neighbor in Unit 11 has some...",
                        ),
                    );
                } else {
                    proof {
                        assert(!brew_fires(old(player)@.inventory, old(state).tea_time, now));
                    }
                }
            },
            None => {
                proof {
                    assert(!brew_fires(old(player)@.inventory, old(state).tea_time, now));
                }
            },
        }
    } else {
        proof {
            assert(!brew_fires(old(player)@.inventory, old(state).tea_time, now));
        }
    }

    // Win condition, locked out once the session is lost.
    if !state.player_lost {
        let bpos = player.inventory.find_object_pos("brewed tea");
        match bpos {
            Some(bi) => {
                if names_contain(&player.inventory.objects[bi].inventory, "sugar") {
                    state.player_won = true;
                }
            },
            None => {},
        }
    }
    msg
}

} // verus!
