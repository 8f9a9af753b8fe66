//! A stationary non-player character with dialogue and an inventory.

use vstd::prelude::*;
use crate::entity::{Object, ObjectV};
use crate::inventory::{obj_index, Inventory};

verus! {

/// A character of the world. `has_interacted` flips to true on the first
/// successful talk and never flips back.
#[derive(Debug)]
pub struct Character {
    pub name: String,
    pub desc: String,
    pub inventory: Inventory,
    pub on_talk: String,
    pub on_talk_again: String,
    pub on_ask: String,
    pub has_interacted: bool,
}

/// The mathematical value of a [`Character`].
#[verifier::ext_equal]
pub struct CharacterV {
    pub name: Seq<char>,
    pub desc: Seq<char>,
    pub inventory: Seq<ObjectV>,
    pub on_talk: Seq<char>,
    pub on_talk_again: Seq<char>,
    pub on_ask: Seq<char>,
    pub has_interacted: bool,
}

impl View for Character {
    type V = CharacterV;

    open spec fn view(&self) -> CharacterV {
        CharacterV {
            name: self.name@,
            desc: self.desc@,
            inventory: self.inventory@,
            on_talk: self.on_talk@,
            on_talk_again: self.on_talk_again@,
            on_ask: self.on_ask@,
            has_interacted: self.has_interacted,
        }
    }
}

impl DeepView for Character {
    type V = CharacterV;

    open spec fn deep_view(&self) -> CharacterV {
        self.view()
    }
}

impl Character {
    /// True exactly when this character holds an object named `object_name`.
    pub fn has(&self, object_name: &str) -> (r: bool)
        ensures
            r == (obj_index(self@.inventory, object_name@) >= 0),
    {
        self.inventory.contains(object_name)
    }

    /// A mutable borrow of the first held object with that name, if any.
    pub fn find_object_mut(&mut self, name: &str) -> (r: Option<&mut Object>)
        ensures
            match r {
                Some(o) => {
                    let i = obj_index(old(self)@.inventory, name@);
                    &&& i >= 0
                    &&& (*o)@ == old(self)@.inventory[i]
                    &&& final(self).inventory.objects@ == old(self).inventory.objects@.update(
                        i,
                        *final(o),
                    )
                    &&& final(self).name@ == old(self).name@
                    &&& final(self).desc@ == old(self).desc@
                    &&& final(self).on_talk@ == old(self).on_talk@
                    &&& final(self).on_talk_again@ == old(self).on_talk_again@
                    &&& final(self).on_ask@ == old(self).on_ask@
                    &&& final(self).has_interacted == old(self).has_interacted
                },
                None => obj_index(old(self)@.inventory, name@) == -1 && final(self)@ == old(
                    self,
                )@,
            },
    {
        self.inventory.find_object_mut(name)
    }

    /// Hands over the first held object with that name, provided it is
    /// takeable; otherwise the character keeps everything.
    pub fn give_object(&mut self, name: &str) -> (r: Option<Object>)
        ensures
            ({
                let i = obj_index(old(self)@.inventory, name@);
                &&& match r {
                    Some(o) => {
                        &&& i >= 0
                        &&& old(self)@.inventory[i].can_take
                        &&& o@ == old(self)@.inventory[i]
                        &&& final(self)@.inventory == old(self)@.inventory.remove(i)
                    },
                    None => {
                        &&& final(self)@.inventory == old(self)@.inventory
                        &&& (i == -1 || !old(self)@.inventory[i].can_take)
                    },
                }
                &&& final(self)@.name == old(self)@.name
                &&& final(self)@.desc == old(self)@.desc
                &&& final(self)@.on_talk == old(self)@.on_talk
                &&& final(self)@.on_talk_again == old(self)@.on_talk_again
                &&& final(self)@.on_ask == old(self)@.on_ask
                &&& final(self)@.has_interacted == old(self)@.has_interacted
            }),
    {
        self.inventory.remove(name)
    }
}

} // verus!
