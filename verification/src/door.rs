//! A door: a directed, possibly time-gated edge between two rooms.

use vstd::prelude::*;
use crate::room::RoomID;
use crate::util::{lemma_name_index, name_index};

verus! {

/// A directed edge of the world graph. A closed door may be forced open once
/// by an elapsed-time trigger; it never closes again.
#[derive(Debug)]
pub struct Door {
    pub target: RoomID,
    pub direction: String,
    pub is_open: bool,
    pub msg_on_open: Option<String>,
    pub msg_on_closed: Option<String>,
}

/// The mathematical value of a [`Door`].
#[verifier::ext_equal]
pub struct DoorV {
    pub target: nat,
    pub direction: Seq<char>,
    pub is_open: bool,
    pub msg_on_open: Option<Seq<char>>,
    pub msg_on_closed: Option<Seq<char>>,
}

impl View for Door {
    type V = DoorV;

    open spec fn view(&self) -> DoorV {
        DoorV {
            target: self.target.0 as nat,
            direction: self.direction@,
            is_open: self.is_open,
            msg_on_open: self.msg_on_open.deep_view(),
            msg_on_closed: self.msg_on_closed.deep_view(),
        }
    }
}

impl DeepView for Door {
    type V = DoorV;

    open spec fn deep_view(&self) -> DoorV {
        self.view()
    }
}

impl Default for Door {
    /// An open, unlabelled, silent door to the first room.
    fn default() -> (r: Door)
        ensures
            r@ == (DoorV {
                target: 0,
                direction: Seq::<char>::empty(),
                is_open: true,
                msg_on_open: None,
                msg_on_closed: None,
            }),
    {
        Door {
            target: RoomID(0),
            direction: String::new(),
            is_open: true,
            msg_on_open: None,
            msg_on_closed: None,
        }
    }
}

/// The index of the first door leading to `target`, or `-1`.
pub open spec fn door_to_index(doors: Seq<DoorV>, target: nat) -> int
    decreases doors.len(),
{
    if doors.len() == 0 {
        -1
    } else if doors[0].target == target {
        0
    } else if door_to_index(doors.drop_first(), target) == -1 {
        -1
    } else {
        1 + door_to_index(doors.drop_first(), target)
    }
}

/// What [`door_to_index`] means, element-wise.
pub proof fn lemma_door_to_index(doors: Seq<DoorV>, target: nat)
    ensures
        ({
            let i = door_to_index(doors, target);
            &&& -1 <= i < doors.len()
            &&& i >= 0 ==> doors[i].target == target && (forall|j: int|
                0 <= j < i ==> (#[trigger] doors[j]).target != target)
            &&& i == -1 ==> (forall|j: int|
                0 <= j < doors.len() ==> (#[trigger] doors[j]).target != target)
        }),
    decreases doors.len(),
{
    if doors.len() > 0 && doors[0].target != target {
        lemma_door_to_index(doors.drop_first(), target);
        assert(forall|j: int|
            1 <= j < doors.len() ==> #[trigger] doors[j] == doors.drop_first()[j - 1]);
    }
}

/// The direction labels of a door list, in order.
pub open spec fn door_keys(doors: Seq<DoorV>) -> Seq<Seq<char>> {
    doors.map_values(|d: DoorV| d.direction)
}

/// The index of the first door facing `dir`, or `-1`. Door directions are
/// unique within a room, but lookups resolve to the first match regardless.
pub open spec fn door_index(doors: Seq<DoorV>, dir: Seq<char>) -> int {
    name_index(door_keys(doors), dir)
}

/// What [`door_index`] means, element-wise.
pub proof fn lemma_door_index(doors: Seq<DoorV>, dir: Seq<char>)
    ensures
        ({
            let i = door_index(doors, dir);
            &&& -1 <= i < doors.len()
            &&& i >= 0 ==> doors[i].direction == dir && (forall|j: int|
                0 <= j < i ==> (#[trigger] doors[j]).direction != dir)
            &&& i == -1 ==> (forall|j: int|
                0 <= j < doors.len() ==> (#[trigger] doors[j]).direction != dir)
        }),
{
    lemma_name_index(door_keys(doors), dir);
    assert(forall|j: int| 0 <= j < doors.len() ==> door_keys(doors)[j] == (
    #[trigger] doors[j]).direction);
}

} // verus!
