//! The player: the single mutable cursor into the world graph.

use vstd::prelude::*;
use crate::entity::{Object, ObjectV};
use crate::inventory::{obj_index, obj_names, Inventory};
use crate::room::{Room, RoomID, RoomV};
use crate::util::{join_names, join_with};

verus! {

/// The player: a name, a description, the current room and what is carried.
#[derive(Debug)]
pub struct Player {
    pub name: String,
    pub desc: String,
    pub at: RoomID,
    pub inventory: Inventory,
}

/// The mathematical value of a [`Player`].
#[verifier::ext_equal]
pub struct PlayerV {
    pub name: Seq<char>,
    pub desc: Seq<char>,
    pub at: nat,
    pub inventory: Seq<ObjectV>,
}

impl View for Player {
    type V = PlayerV;

    open spec fn view(&self) -> PlayerV {
        PlayerV {
            name: self.name@,
            desc: self.desc@,
            at: self.at.0 as nat,
            inventory: self.inventory@,
        }
    }
}

impl Player {
    /// The room the player is in.
    pub fn get_curr_room<'a, 'b>(&'a self, rooms: &'b Vec<Room>) -> (r: &'b Room)
        requires
            self.at.0 < rooms@.len(),
        ensures
            r@ == rooms.deep_view()[self.at.0 as int],
    {
        &rooms[self.at.0]
    }

    /// A mutable borrow of the room the player is in.
    pub fn get_curr_room_mut<'a, 'b>(&'a self, rooms: &'b mut Vec<Room>) -> (r: &'b mut Room)
        requires
            self.at.0 < old(rooms)@.len(),
        ensures
            *r == old(rooms)@[self.at.0 as int],
            final(rooms)@ == old(rooms)@.update(self.at.0 as int, *final(r)),
    {
        &mut rooms[self.at.0]
    }

    /// Moves the player to `room_id`.
    pub fn go(&mut self, room_id: RoomID)
        ensures
            final(self).at == room_id,
            final(self).name@ == old(self).name@,
            final(self).desc@ == old(self).desc@,
            final(self).inventory@ == old(self).inventory@,
    {
        self.at = room_id;
    }

    /// The names of the carried objects, one per line, indented.
    pub fn list_objects(&self) -> (r: String)
        ensures
            r@ == join_with(obj_names(self@.inventory), "\n\t- "@),
    {
        let n = self.inventory.objects.len();
        let mut names: Vec<String> = Vec::new();
        let mut i: usize = 0;
        while i < n
            invariant
                n == self.inventory.objects@.len(),
                i <= n,
                names.deep_view() =~= obj_names(self@.inventory).take(i as int),
            decreases n - i,
        {
            let ghost before = names.deep_view();
            names.push(self.inventory.objects[i].name.clone());
            proof {
                assert(names.deep_view() =~= before.push(self@.inventory[i as int].name));
                assert(obj_names(self@.inventory).take(i + 1) =~= obj_names(
                    self@.inventory,
                ).take(i as int).push(self@.inventory[i as int].name));
            }
            i += 1;
        }
        proof {
            assert(obj_names(self@.inventory).take(n as int) =~= obj_names(self@.inventory));
        }
        join_names(&names, "\n\t- ")
    }

    /// True exactly when the player carries an object so named.
    pub fn has(&self, object_name: &str) -> (r: bool)
        ensures
            r == (obj_index(self@.inventory, object_name@) >= 0),
    {
        self.inventory.contains(object_name)
    }

    /// The first carried object so named, if any.
    pub fn find_object(&self, object_name: &str) -> (r: Option<&Object>)
        ensures
            match r {
                Some(o) => obj_index(self@.inventory, object_name@) >= 0 && o@
                    == self@.inventory[obj_index(self@.inventory, object_name@)],
                None => obj_index(self@.inventory, object_name@) == -1,
            },
    {
        self.inventory.find_object(object_name)
    }

    /// A mutable borrow of the first carried object so named, if any.
    pub fn find_object_mut(&mut self, object_name: &str) -> (r: Option<&mut Object>)
        ensures
            match r {
                Some(o) => {
                    let i = obj_index(old(self)@.inventory, object_name@);
                    &&& i >= 0
                    &&& (*o)@ == old(self)@.inventory[i]
                    &&& final(self).inventory.objects@ == old(self).inventory.objects@.update(
                        i,
                        *final(o),
                    )
                    &&& final(self).name@ == old(self).name@
                    &&& final(self).desc@ == old(self).desc@
                    &&& final(self).at == old(self).at
                },
                None => obj_index(old(self)@.inventory, object_name@) == -1 && final(self)@
                    == old(self)@ && final(self).at == old(self).at,
            },
    {
        self.inventory.find_object_mut(object_name)
    }

    /// Puts `object` into the player's pockets.
    pub fn take_object(&mut self, object: Object)
        ensures
            final(self)@.inventory == old(self)@.inventory.push(object@),
            final(self).name@ == old(self).name@,
            final(self).desc@ == old(self).desc@,
            final(self).at == old(self).at,
    {
        self.inventory.add(object);
    }

    /// Removes and returns the first carried object so named, provided it is
    /// takeable; otherwise the pockets stay as they are.
    pub fn remove(&mut self, object_name: &str) -> (r: Option<Object>)
        ensures
            ({
                let i = obj_index(old(self)@.inventory, object_name@);
                &&& match r {
                    Some(o) => {
                        &&& i >= 0
                        &&& old(self)@.inventory[i].can_take
                        &&& o@ == old(self)@.inventory[i]
                        &&& final(self)@.inventory == old(self)@.inventory.remove(i)
                    },
                    None => {
                        &&& final(self)@.inventory == old(self)@.inventory
                        &&& (i == -1 || !old(self)@.inventory[i].can_take)
                    },
                }
                &&& final(self).name@ == old(self).name@
                &&& final(self).desc@ == old(self).desc@
                &&& final(self).at == old(self).at
            }),
    {
        self.inventory.remove(object_name)
    }
}

} // verus!
