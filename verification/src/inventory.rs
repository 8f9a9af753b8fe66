//! A name-addressed collection of objects, owned by exactly one room, player
//! or character. Lookups resolve to the first object with the given name;
//! movement between inventories is remove-then-insert, never aliasing.

use vstd::prelude::*;
use crate::entity::{remove_name, Object, ObjectV};
use crate::util::{lemma_name_index, name_index, string_eq_str};

verus! {

/// An inventory: the objects it holds, in insertion order.
#[derive(Debug)]
pub struct Inventory {
    pub objects: Vec<Object>,
}

impl View for Inventory {
    type V = Seq<ObjectV>;

    open spec fn view(&self) -> Seq<ObjectV> {
        self.objects.deep_view()
    }
}

impl DeepView for Inventory {
    type V = Seq<ObjectV>;

    open spec fn deep_view(&self) -> Seq<ObjectV> {
        self.view()
    }
}

impl Default for Inventory {
    /// An empty inventory.
    fn default() -> (r: Inventory)
        ensures
            r@ == Seq::<ObjectV>::empty(),
    {
        let r = Inventory { objects: Vec::new() };
        proof {
            assert(r@ =~= Seq::<ObjectV>::empty());
        }
        r
    }
}

/// The names of the objects, in order.
pub open spec fn obj_names(objs: Seq<ObjectV>) -> Seq<Seq<char>> {
    objs.map_values(|o: ObjectV| o.name)
}

/// The index of the first object named `name`, or `-1`.
pub open spec fn obj_index(objs: Seq<ObjectV>, name: Seq<char>) -> int {
    name_index(obj_names(objs), name)
}

/// True exactly when some object is named `name`.
pub open spec fn has_object(objs: Seq<ObjectV>, name: Seq<char>) -> bool {
    obj_index(objs, name) >= 0
}

/// An inventory is name-unique: no two objects in it share a name.
pub open spec fn names_unique(objs: Seq<ObjectV>) -> bool {
    forall|i: int, j: int|
        0 <= i < j < objs.len() ==> (#[trigger] objs[i]).name != (#[trigger] objs[j]).name
}

/// What [`obj_index`] means, element-wise.
pub proof fn lemma_obj_index(objs: Seq<ObjectV>, name: Seq<char>)
    ensures
        ({
            let i = obj_index(objs, name);
            &&& -1 <= i < objs.len()
            &&& i >= 0 ==> objs[i].name == name && (forall|j: int|
                0 <= j < i ==> (#[trigger] objs[j]).name != name)
            &&& i == -1 ==> (forall|j: int|
                0 <= j < objs.len() ==> (#[trigger] objs[j]).name != name)
        }),
{
    lemma_name_index(obj_names(objs), name);
    assert(forall|j: int|
        0 <= j < objs.len() ==> obj_names(objs)[j] == (#[trigger] objs[j]).name);
}

/// The first object named `name` is at `i` when `i` holds the name and no
/// earlier index does.
pub proof fn lemma_obj_index_at(objs: Seq<ObjectV>, name: Seq<char>, i: int)
    requires
        0 <= i < objs.len(),
        objs[i].name == name,
        forall|j: int| 0 <= j < i ==> (#[trigger] objs[j]).name != name,
    ensures
        obj_index(objs, name) == i,
{
    lemma_obj_index(objs, name);
    let idx = obj_index(objs, name);
    if idx == -1 {
        assert(objs[i].name != name);
    } else if idx < i {
        assert(objs[idx].name != name);
    } else if idx > i {
        assert(objs[i].name != name);
    }
}

/// No object is named `name` exactly when every object's name differs.
pub proof fn lemma_obj_index_missing(objs: Seq<ObjectV>, name: Seq<char>)
    requires
        forall|j: int| 0 <= j < objs.len() ==> (#[trigger] objs[j]).name != name,
    ensures
        obj_index(objs, name) == -1,
{
    lemma_obj_index(objs, name);
    let idx = obj_index(objs, name);
    if idx >= 0 {
        assert(objs[idx].name != name);
    }
}

impl Inventory {
    /// The first object named `name`, if any.
    pub fn find_object(&self, name: &str) -> (r: Option<&Object>)
        ensures
            match r {
                Some(o) => obj_index(self@, name@) >= 0 && o@ == self@[obj_index(self@, name@)],
                None => obj_index(self@, name@) == -1,
            },
    {
        let n = self.objects.len();
        let mut i: usize = 0;
        while i < n
            invariant
                n == self.objects@.len(),
                i <= n,
                forall|j: int| 0 <= j < i ==> (#[trigger] self@[j]).name != name@,
            decreases n - i,
        {
            if string_eq_str(&self.objects[i].name, name) {
                proof {
                    lemma_obj_index_at(self@, name@, i as int);
                }
                return Some(&self.objects[i]);
            }
            i += 1;
        }
        proof {
            lemma_obj_index_missing(self@, name@);
        }
        None
    }

    /// A mutable borrow of the first object named `name`, if any. The final
    /// inventory is the old one with that slot replaced by whatever the
    /// caller leaves behind the borrow.
    pub fn find_object_mut(&mut self, name: &str) -> (r: Option<&mut Object>)
        ensures
            match r {
                Some(o) => {
                    let i = obj_index(old(self)@, name@);
                    &&& i >= 0
                    &&& (*o)@ == old(self)@[i]
                    &&& final(self).objects@ == old(self).objects@.update(i, *final(o))
                },
                None => obj_index(old(self)@, name@) == -1 && final(self)@ == old(self)@,
            },
    {
        let n = self.objects.len();
        let mut i: usize = 0;
        while i < n
            invariant
                self@ == old(self)@,
                self.objects@ == old(self).objects@,
                n == self.objects@.len(),
                i <= n,
                forall|j: int| 0 <= j < i ==> (#[trigger] self@[j]).name != name@,
            decreases n - i,
        {
            if string_eq_str(&self.objects[i].name, name) {
                proof {
                    lemma_obj_index_at(self@, name@, i as int);
                }
                return Some(&mut self.objects[i]);
            }
            i += 1;
        }
        proof {
            lemma_obj_index_missing(self@, name@);
        }
        None
    }

    /// The position of the first object named `name`, if any.
    pub fn find_object_pos(&self, name: &str) -> (r: Option<usize>)
        ensures
            match r {
                Some(i) => i == obj_index(self@, name@) && i < self@.len(),
                None => obj_index(self@, name@) == -1,
            },
    {
        let n = self.objects.len();
        let mut i: usize = 0;
        while i < n
            invariant
                n == self.objects@.len(),
                i <= n,
                forall|j: int| 0 <= j < i ==> (#[trigger] self@[j]).name != name@,
            decreases n - i,
        {
            if string_eq_str(&self.objects[i].name, name) {
                proof {
                    lemma_obj_index_at(self@, name@, i as int);
                }
                return Some(i);
            }
            i += 1;
        }
        proof {
            lemma_obj_index_missing(self@, name@);
        }
        None
    }

    /// True exactly when an object named `name` is present.
    pub fn contains(&self, name: &str) -> (r: bool)
        ensures
            r == has_object(self@, name@),
    {
        let pos = self.find_object_pos(name);
        proof {
            lemma_obj_index(self@, name@);
        }
        pos.is_some()
    }

    /// Appends an object.
    pub fn add(&mut self, object: Object)
        ensures
            final(self)@ == old(self)@.push(object@),
    {
        let ghost ov = object@;
        self.objects.push(object);
        proof {
            assert(self@ =~= old(self)@.push(ov));
        }
    }

    /// Removes and returns the first object named `name`, provided it is
    /// takeable; a missing or fixed object leaves the inventory unchanged.
    pub fn remove(&mut self, name: &str) -> (r: Option<Object>)
        ensures
            ({
                let i = obj_index(old(self)@, name@);
                match r {
                    Some(o) => {
                        &&& i >= 0
                        &&& old(self)@[i].can_take
                        &&& o@ == old(self)@[i]
                        &&& final(self)@ == old(self)@.remove(i)
                    },
                    None => {
                        &&& final(self)@ == old(self)@
                        &&& (i == -1 || !old(self)@[i].can_take)
                    },
                }
            }),
    {
        let index = self.find_object_pos(name);
        match index {
            Some(i) => {
                proof {
                    lemma_obj_index(self@, name@);
                }
                if self.objects[i].can_take {
                    let o = self.objects.remove(i);
                    proof {
                        assert(self@ =~= old(self)@.remove(i as int));
                    }
                    Some(o)
                } else {
                    None
                }
            },
            None => None,
        }
    }

    /// Makes the first object with each of the given names takeable, in
    /// order; names that match no object are skipped.
    pub fn reveal_names(&mut self, names: &Vec<String>)
        ensures
            final(self)@ == reveal_all(old(self)@, names.deep_view()),
    {
        let n = names.len();
        let mut k: usize = 0;
        while k < n
            invariant
                n == names@.len(),
                k <= n,
                self@ == reveal_all(old(self)@, names.deep_view().take(k as int)),
            decreases n - k,
        {
            let ghost prev = self@;
            let pos = self.find_object_pos(names[k].as_str());
            match pos {
                Some(i) => {
                    proof {
                        lemma_obj_index(prev, names.deep_view()[k as int]);
                    }
                    self.objects[i].can_take = true;
                    proof {
                        assert(self@ =~= prev.update(
                            obj_index(prev, names.deep_view()[k as int]),
                            ObjectV {
                                can_take: true,
                                ..prev[obj_index(prev, names.deep_view()[k as int])]
                            },
                        ));
                        assert(self@ == reveal_step(prev, names.deep_view()[k as int]));
                    }
                },
                None => {
                    proof {
                        assert(self@ == reveal_step(prev, names.deep_view()[k as int]));
                    }
                },
            }
            proof {
                assert(names.deep_view().take(k + 1) =~= names.deep_view().take(k as int).push(
                    names.deep_view()[k as int],
                ));
                lemma_reveal_all_snoc(
                    old(self)@,
                    names.deep_view().take(k as int),
                    names.deep_view()[k as int],
                );
            }
            k += 1;
        }
        proof {
            assert(names.deep_view().take(n as int) =~= names.deep_view());
        }
    }

    /// Removes the first occurrence of `name` from every object's nested name
    /// list (used to keep name-based containment consistent when an object
    /// leaves the room).
    pub fn scrub_nested_name(&mut self, name: &str)
        ensures
            final(self)@ == scrub_spec(old(self)@, name@),
    {
        let n = self.objects.len();
        let mut i: usize = 0;
        while i < n
            invariant
                n == self.objects@.len(),
                self@.len() == old(self)@.len(),
                i <= n,
                forall|j: int| 0 <= j < i ==> self@[j] == #[trigger] scrub_spec(old(self)@, name@)[j],
                forall|j: int| i <= j < n ==> self@[j] == old(self)@[j],
            decreases n - i,
        {
            let ghost prev = self@;
            remove_name(&mut self.objects[i].inventory, name);
            proof {
                lemma_name_index(old(self)@[i as int].inventory, name@);
                assert(self@[i as int] =~= (ObjectV {
                    inventory: remove_first_name(old(self)@[i as int].inventory, name@),
                    ..old(self)@[i as int]
                }));
                assert(forall|j: int|
                    0 <= j < n && j != i ==> self@[j] == #[trigger] prev[j]);
            }
            i += 1;
        }
        proof {
            assert(final(self)@ =~= scrub_spec(old(self)@, name@));
        }
    }
}

/// The inventory with the first object named `name` (if any) made takeable.
pub open spec fn reveal_step(objs: Seq<ObjectV>, name: Seq<char>) -> Seq<ObjectV> {
    let i = obj_index(objs, name);
    if i >= 0 {
        objs.update(i, ObjectV { can_take: true, ..objs[i] })
    } else {
        objs
    }
}

/// The inventory after revealing each of `names` in order.
pub open spec fn reveal_all(objs: Seq<ObjectV>, names: Seq<Seq<char>>) -> Seq<ObjectV>
    decreases names.len(),
{
    if names.len() == 0 {
        objs
    } else {
        reveal_all(reveal_step(objs, names[0]), names.drop_first())
    }
}

/// Folding one more name from the right.
pub proof fn lemma_reveal_all_snoc(objs: Seq<ObjectV>, names: Seq<Seq<char>>, w: Seq<char>)
    ensures
        reveal_all(objs, names.push(w)) == reveal_step(reveal_all(objs, names), w),
    decreases names.len(),
{
    let l = names.push(w);
    if names.len() == 0 {
        assert(l.drop_first() =~= names);
        assert(l[0] == w);
        assert(reveal_all(objs, l) == reveal_all(reveal_step(objs, w), names));
        assert(reveal_all(reveal_step(objs, w), names) == reveal_step(objs, w));
        assert(reveal_all(objs, names) == objs);
    } else {
        assert(l[0] == names[0]);
        assert(l.drop_first() =~= names.drop_first().push(w));
        assert(reveal_all(objs, l) == reveal_all(
            reveal_step(objs, names[0]),
            names.drop_first().push(w),
        ));
        lemma_reveal_all_snoc(reveal_step(objs, names[0]), names.drop_first(), w);
        assert(reveal_all(objs, names) == reveal_all(
            reveal_step(objs, names[0]),
            names.drop_first(),
        ));
    }
}

/// True when one of `ns` resolves (by first match) to index `i` of `objs`.
pub open spec fn names_hit(objs: Seq<ObjectV>, ns: Seq<Seq<char>>, i: int) -> bool {
    exists|k: int| 0 <= k < ns.len() && obj_index(objs, #[trigger] ns[k]) == i
}

/// Revealing one name keeps every object's name.
pub proof fn lemma_reveal_step_names(objs: Seq<ObjectV>, w: Seq<char>)
    ensures
        obj_names(reveal_step(objs, w)) == obj_names(objs),
{
    if obj_index(objs, w) >= 0 {
        lemma_obj_index(objs, w);
    }
    assert(obj_names(reveal_step(objs, w)) =~= obj_names(objs));
}

/// First-match lookups are unchanged by revealing a name.
pub proof fn lemma_obj_index_reveal_step(objs: Seq<ObjectV>, w: Seq<char>, name: Seq<char>)
    ensures
        obj_index(reveal_step(objs, w), name) == obj_index(objs, name),
{
    lemma_reveal_step_names(objs, w);
}

/// What revealing a list of names does, element by element: each object
/// keeps its name, description and contents, and its `can_take` flag is the
/// old flag or-ed with whether some revealed name resolves to it. In
/// particular no flag that is already set is ever cleared, and no object is
/// added or removed.
pub proof fn lemma_reveal_all_pointwise(objs: Seq<ObjectV>, ns: Seq<Seq<char>>)
    ensures
        reveal_all(objs, ns).len() == objs.len(),
        forall|i: int|
            0 <= i < objs.len() ==> #[trigger] reveal_all(objs, ns)[i] == (ObjectV {
                can_take: objs[i].can_take || names_hit(objs, ns, i),
                ..objs[i]
            }),
    decreases ns.len(),
{
    if ns.len() == 0 {
        assert forall|i: int| 0 <= i < objs.len() implies #[trigger] reveal_all(objs, ns)[i]
            == (ObjectV { can_take: objs[i].can_take || names_hit(objs, ns, i), ..objs[i] }) by {
            assert(!names_hit(objs, ns, i));
            assert(reveal_all(objs, ns)[i] =~= (ObjectV {
                can_take: objs[i].can_take || names_hit(objs, ns, i),
                ..objs[i]
            }));
        }
    } else {
        let w = ns[0];
        let rest = ns.drop_first();
        let objs1 = reveal_step(objs, w);
        lemma_reveal_all_pointwise(objs1, rest);
        if obj_index(objs, w) >= 0 {
            lemma_obj_index(objs, w);
        }
        assert forall|name: Seq<char>|
            obj_index(objs1, name) == obj_index(objs, name) by {
            lemma_obj_index_reveal_step(objs, w, name);
        }
        assert forall|i: int| 0 <= i < objs.len() implies #[trigger] reveal_all(objs, ns)[i]
            == (ObjectV { can_take: objs[i].can_take || names_hit(objs, ns, i), ..objs[i] }) by {
            assert(reveal_all(objs, ns)[i] == (ObjectV {
                can_take: objs1[i].can_take || names_hit(objs1, rest, i),
                ..objs1[i]
            }));
            // The hit sets line up: the first name hits through `objs1[i]`'s
            // flag, the rest shift by one position.
            if names_hit(objs1, rest, i) {
                let k = choose|k: int|
                    0 <= k < rest.len() && obj_index(objs1, #[trigger] rest[k]) == i;
                assert(ns[k + 1] == rest[k]);
                assert(names_hit(objs, ns, i));
            }
            if names_hit(objs, ns, i) {
                let k = choose|k: int|
                    0 <= k < ns.len() && obj_index(objs, #[trigger] ns[k]) == i;
                if k == 0 {
                    assert(objs1[i].can_take);
                } else {
                    assert(rest[k - 1] == ns[k]);
                    assert(names_hit(objs1, rest, i));
                }
            }
            assert(reveal_all(objs, ns)[i] =~= (ObjectV {
                can_take: objs[i].can_take || names_hit(objs, ns, i),
                ..objs[i]
            }));
        }
    }
}

/// Law: revealing the same names a second time changes nothing — repeated
/// examining of an already-revealed container neither duplicates objects in
/// the inventory nor clears a `can_take` flag that is already set.
pub proof fn lemma_reveal_all_idempotent(objs: Seq<ObjectV>, ns: Seq<Seq<char>>)
    ensures
        reveal_all(reveal_all(objs, ns), ns) == reveal_all(objs, ns),
{
    let r1 = reveal_all(objs, ns);
    lemma_reveal_all_pointwise(objs, ns);
    lemma_reveal_all_pointwise(r1, ns);
    assert forall|name: Seq<char>| obj_index(r1, name) == obj_index(objs, name) by {
        assert(obj_names(r1) =~= obj_names(objs));
    }
    assert forall|i: int| 0 <= i < r1.len() implies #[trigger] reveal_all(r1, ns)[i] == r1[i] by {
        assert(names_hit(r1, ns, i) == names_hit(objs, ns, i));
        assert(reveal_all(r1, ns)[i] =~= r1[i]);
    }
    assert(reveal_all(r1, ns) =~= r1);
}

/// A name list with the first occurrence of `name` removed, if present.
pub open spec fn remove_first_name(names: Seq<Seq<char>>, name: Seq<char>) -> Seq<Seq<char>> {
    let i = name_index(names, name);
    if i >= 0 {
        names.remove(i)
    } else {
        names
    }
}

/// Every object with `name` scrubbed from its nested name list.
pub open spec fn scrub_spec(objs: Seq<ObjectV>, name: Seq<char>) -> Seq<ObjectV> {
    objs.map_values(
        |o: ObjectV| ObjectV { inventory: remove_first_name(o.inventory, name), ..o },
    )
}

} // verus!
