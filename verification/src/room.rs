//! A location node in the fixed world graph: doors, an inventory of objects,
//! and the characters present.

use vstd::prelude::*;
use vstd::string::StringExecFns;
use crate::character::{Character, CharacterV};
use crate::door::{door_index, Door, DoorV};
use crate::entity::{Object, ObjectV};
use crate::inventory::{obj_index, Inventory};
use crate::util::{get_room_name_border, lemma_name_index, name_index, string_eq_str};

verus! {

/// An opaque integer identifying a room; used as an index into the room list.
#[derive(PartialEq, Eq, Structural, Clone, Copy, Debug)]
pub struct RoomID(pub usize);

/// A room of the world. Rooms are created once at startup; only their
/// contents (inventory, characters, door open-flags) change during play.
#[derive(Debug)]
pub struct Room {
    pub name: String,
    pub desc: String,
    pub doors: Vec<Door>,
    pub inventory: Inventory,
    pub characters: Vec<Character>,
}

/// The mathematical value of a [`Room`].
#[verifier::ext_equal]
pub struct RoomV {
    pub name: Seq<char>,
    pub desc: Seq<char>,
    pub doors: Seq<DoorV>,
    pub inventory: Seq<ObjectV>,
    pub characters: Seq<CharacterV>,
}

impl View for Room {
    type V = RoomV;

    open spec fn view(&self) -> RoomV {
        RoomV {
            name: self.name@,
            desc: self.desc@,
            doors: self.doors.deep_view(),
            inventory: self.inventory@,
            characters: self.characters.deep_view(),
        }
    }
}

impl DeepView for Room {
    type V = RoomV;

    open spec fn deep_view(&self) -> RoomV {
        self.view()
    }
}

/// The room name between two horizontal rules, as shown on entry.
pub open spec fn display_name_spec(name: Seq<char>) -> Seq<char> {
    "==============="@ + "\n"@ + name + "\n"@ + "==============="@
}

/// The names of the characters, in order.
pub open spec fn char_names(chars: Seq<CharacterV>) -> Seq<Seq<char>> {
    chars.map_values(|c: CharacterV| c.name)
}

/// The index of the first character named `name`, or `-1`.
pub open spec fn char_index(chars: Seq<CharacterV>, name: Seq<char>) -> int {
    name_index(char_names(chars), name)
}

/// What [`char_index`] means, element-wise.
pub proof fn lemma_char_index(chars: Seq<CharacterV>, name: Seq<char>)
    ensures
        ({
            let i = char_index(chars, name);
            &&& -1 <= i < chars.len()
            &&& i >= 0 ==> chars[i].name == name && (forall|j: int|
                0 <= j < i ==> (#[trigger] chars[j]).name != name)
            &&& i == -1 ==> (forall|j: int|
                0 <= j < chars.len() ==> (#[trigger] chars[j]).name != name)
        }),
{
    lemma_name_index(char_names(chars), name);
    assert(forall|j: int|
        0 <= j < chars.len() ==> char_names(chars)[j] == (#[trigger] chars[j]).name);
}

/// The first character named `name` is at `i` when `i` holds the name and no
/// earlier index does.
pub proof fn lemma_char_index_at(chars: Seq<CharacterV>, name: Seq<char>, i: int)
    requires
        0 <= i < chars.len(),
        chars[i].name == name,
        forall|j: int| 0 <= j < i ==> (#[trigger] chars[j]).name != name,
    ensures
        char_index(chars, name) == i,
{
    lemma_char_index(chars, name);
    let idx = char_index(chars, name);
    if idx == -1 {
        assert(chars[i].name != name);
    } else if idx < i {
        assert(chars[idx].name != name);
    } else if idx > i {
        assert(chars[i].name != name);
    }
}

/// No character is named `name` exactly when every character's name differs.
pub proof fn lemma_char_index_missing(chars: Seq<CharacterV>, name: Seq<char>)
    requires
        forall|j: int| 0 <= j < chars.len() ==> (#[trigger] chars[j]).name != name,
    ensures
        char_index(chars, name) == -1,
{
    lemma_char_index(chars, name);
    let idx = char_index(chars, name);
    if idx >= 0 {
        assert(chars[idx].name != name);
    }
}

impl Room {
    /// The room name between two horizontal rules.
    pub fn get_display_name(&self) -> (r: String)
        ensures
            r@ == display_name_spec(self@.name),
    {
        let border = get_room_name_border();
        String::from_str(border).concat("\n").concat(self.name.as_str()).concat("\n").concat(
            border,
        )
    }

    /// The first door facing `direction`, if any.
    pub fn get_door(&self, direction: &str) -> (r: Option<&Door>)
        ensures
            match r {
                Some(d) => 0 <= door_index(self@.doors, direction@) < self@.doors.len() && d@
                    == self@.doors[door_index(self@.doors, direction@)],
                None => door_index(self@.doors, direction@) == -1,
            },
    {
        let n = self.doors.len();
        let mut i: usize = 0;
        while i < n
            invariant
                n == self.doors@.len(),
                i <= n,
                forall|j: int| 0 <= j < i ==> (#[trigger] self@.doors[j]).direction != direction@,
            decreases n - i,
        {
            if string_eq_str(&self.doors[i].direction, direction) {
                proof {
                    lemma_name_index(
                        self@.doors.map_values(|d: DoorV| d.direction),
                        direction@,
                    );
                    let keys = self@.doors.map_values(|d: DoorV| d.direction);
                    assert(forall|j: int|
                        0 <= j < self@.doors.len() ==> keys[j] == (
                        #[trigger] self@.doors[j]).direction);
                    let idx = door_index(self@.doors, direction@);
                    assert(keys.contains(direction@)) by {
                        assert(keys[i as int] == direction@);
                    }
                    assert(idx >= 0);
                    if idx < i {
                        assert(self@.doors[idx].direction != direction@);
                    } else if idx > i {
                        assert(self@.doors[i as int].direction != direction@);
                    }
                    assert(idx == i);
                }
                return Some(&self.doors[i]);
            }
            i += 1;
        }
        proof {
            lemma_name_index(self@.doors.map_values(|d: DoorV| d.direction), direction@);
            let keys = self@.doors.map_values(|d: DoorV| d.direction);
            assert(forall|j: int|
                0 <= j < self@.doors.len() ==> keys[j] == (#[trigger] self@.doors[j]).direction);
            let idx = door_index(self@.doors, direction@);
            if idx >= 0 {
                assert(self@.doors[idx].direction != direction@);
            }
        }
        None
    }

    /// True exactly when the room's flat inventory holds an object so named.
    pub fn has(&self, object_name: &str) -> (r: bool)
        ensures
            r == (obj_index(self@.inventory, object_name@) >= 0),
    {
        self.inventory.contains(object_name)
    }

    /// The first object so named in the room's flat inventory, if any.
    pub fn find_object(&self, name: &str) -> (r: Option<&Object>)
        ensures
            match r {
                Some(o) => obj_index(self@.inventory, name@) >= 0 && o@ == self@.inventory[obj_index(
                    self@.inventory,
                    name@,
                )],
                None => obj_index(self@.inventory, name@) == -1,
            },
    {
        self.inventory.find_object(name)
    }

    /// A mutable borrow of the first object so named, if any.
    pub fn find_object_mut(&mut self, name: &str) -> (r: Option<&mut Object>)
        ensures
            match r {
                Some(o) => {
                    let i = obj_index(old(self)@.inventory, name@);
                    &&& i >= 0
                    &&& (*o)@ == old(self)@.inventory[i]
                    &&& final(self).inventory.objects@ == old(self).inventory.objects@.update(
                        i,
                        *final(o),
                    )
                    &&& final(self).name@ == old(self).name@
                    &&& final(self).desc@ == old(self).desc@
                    &&& final(self).doors.deep_view() == old(self).doors.deep_view()
                    &&& final(self).characters.deep_view() == old(self).characters.deep_view()
                },
                None => obj_index(old(self)@.inventory, name@) == -1 && final(self)@ == old(
                    self,
                )@,
            },
    {
        self.inventory.find_object_mut(name)
    }

    /// Removes and returns the first object so named, provided it is
    /// takeable; otherwise the room keeps everything.
    pub fn remove(&mut self, name: &str) -> (r: Option<Object>)
        ensures
            ({
                let i = obj_index(old(self)@.inventory, name@);
                &&& match r {
                    Some(o) => {
                        &&& i >= 0
                        &&& old(self)@.inventory[i].can_take
                        &&& o@ == old(self)@.inventory[i]
                        &&& final(self)@.inventory == old(self)@.inventory.remove(i)
                    },
                    None => {
                        &&& final(self)@.inventory == old(self)@.inventory
                        &&& (i == -1 || !old(self)@.inventory[i].can_take)
                    },
                }
                &&& final(self)@.name == old(self)@.name
                &&& final(self)@.desc == old(self)@.desc
                &&& final(self)@.doors == old(self)@.doors
                &&& final(self)@.characters == old(self)@.characters
            }),
    {
        self.inventory.remove(name)
    }

    /// The first character so named, if any.
    pub fn find_character(&self, name: &str) -> (r: Option<&Character>)
        ensures
            match r {
                Some(c) => char_index(self@.characters, name@) >= 0 && c@
                    == self@.characters[char_index(self@.characters, name@)],
                None => char_index(self@.characters, name@) == -1,
            },
    {
        let n = self.characters.len();
        let mut i: usize = 0;
        while i < n
            invariant
                n == self.characters@.len(),
                i <= n,
                forall|j: int| 0 <= j < i ==> (#[trigger] self@.characters[j]).name != name@,
            decreases n - i,
        {
            if string_eq_str(&self.characters[i].name, name) {
                proof {
                    lemma_char_index_at(self@.characters, name@, i as int);
                }
                return Some(&self.characters[i]);
            }
            i += 1;
        }
        proof {
            lemma_char_index_missing(self@.characters, name@);
        }
        None
    }

    /// The position of the first character so named, if any.
    pub fn find_character_pos(&self, name: &str) -> (r: Option<usize>)
        ensures
            match r {
                Some(i) => i == char_index(self@.characters, name@) && i < self@.characters.len(),
                None => char_index(self@.characters, name@) == -1,
            },
    {
        let n = self.characters.len();
        let mut i: usize = 0;
        while i < n
            invariant
                n == self.characters@.len(),
                i <= n,
                forall|j: int| 0 <= j < i ==> (#[trigger] self@.characters[j]).name != name@,
            decreases n - i,
        {
            if string_eq_str(&self.characters[i].name, name) {
                proof {
                    lemma_char_index_at(self@.characters, name@, i as int);
                }
                return Some(i);
            }
            i += 1;
        }
        proof {
            lemma_char_index_missing(self@.characters, name@);
        }
        None
    }

    /// A mutable borrow of the first character so named, if any.
    pub fn find_character_mut(&mut self, name: &str) -> (r: Option<&mut Character>)
        ensures
            match r {
                Some(c) => {
                    let i = char_index(old(self)@.characters, name@);
                    &&& i >= 0
                    &&& (*c)@ == old(self)@.characters[i]
                    &&& final(self).characters@ == old(self).characters@.update(i, *final(c))
                    &&& final(self).name@ == old(self).name@
                    &&& final(self).desc@ == old(self).desc@
                    &&& final(self).doors.deep_view() == old(self).doors.deep_view()
                    &&& final(self).inventory@ == old(self).inventory@
                },
                None => char_index(old(self)@.characters, name@) == -1 && final(self)@ == old(
                    self,
                )@,
            },
    {
        let n = self.characters.len();
        let mut i: usize = 0;
        while i < n
            invariant
                self@ == old(self)@,
                self.characters@ == old(self).characters@,
                n == self.characters@.len(),
                i <= n,
                forall|j: int| 0 <= j < i ==> (#[trigger] self@.characters[j]).name != name@,
            decreases n - i,
        {
            if string_eq_str(&self.characters[i].name, name) {
                proof {
                    lemma_char_index_at(self@.characters, name@, i as int);
                }
                return Some(&mut self.characters[i]);
            }
            i += 1;
        }
        proof {
            lemma_char_index_missing(self@.characters, name@);
        }
        None
    }
}

} // verus!
