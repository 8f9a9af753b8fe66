//! An interactive object. An object may contain other objects *by name*: its
//! `inventory` field lists names that are resolved lazily against the flat
//! inventory of the room that owns it.

use vstd::prelude::*;
use crate::util::{lemma_name_index, name_index, string_eq_str};

verus! {

/// An interactive item of the world.
#[derive(Debug)]
pub struct Object {
    pub name: String,
    pub desc: String,
    /// Names of the objects nested inside this one (resolved by name against
    /// the owning room's flat inventory).
    pub inventory: Vec<String>,
    /// Names of the objects this object's own inventory may receive.
    pub accepts: Vec<String>,
    pub can_take: bool,
    pub can_use: bool,
    pub msg_on_take: Option<String>,
    pub msg_on_use: Option<String>,
}

/// The mathematical value of an [`Object`].
#[verifier::ext_equal]
pub struct ObjectV {
    pub name: Seq<char>,
    pub desc: Seq<char>,
    pub inventory: Seq<Seq<char>>,
    pub accepts: Seq<Seq<char>>,
    pub can_take: bool,
    pub can_use: bool,
    pub msg_on_take: Option<Seq<char>>,
    pub msg_on_use: Option<Seq<char>>,
}

impl View for Object {
    type V = ObjectV;

    open spec fn view(&self) -> ObjectV {
        ObjectV {
            name: self.name@,
            desc: self.desc@,
            inventory: self.inventory.deep_view(),
            accepts: self.accepts.deep_view(),
            can_take: self.can_take,
            can_use: self.can_use,
            msg_on_take: self.msg_on_take.deep_view(),
            msg_on_use: self.msg_on_use.deep_view(),
        }
    }
}

impl DeepView for Object {
    type V = ObjectV;

    open spec fn deep_view(&self) -> ObjectV {
        self.view()
    }
}

impl Default for Object {
    /// A nameless object that holds nothing, accepts nothing, and can be
    /// neither taken nor used.
    fn default() -> (r: Object)
        ensures
            r@ == (ObjectV {
                name: Seq::<char>::empty(),
                desc: Seq::<char>::empty(),
                inventory: Seq::<Seq<char>>::empty(),
                accepts: Seq::<Seq<char>>::empty(),
                can_take: false,
                can_use: false,
                msg_on_take: None,
                msg_on_use: None,
            }),
    {
        let r = Object {
            name: String::new(),
            desc: String::new(),
            inventory: Vec::new(),
            accepts: Vec::new(),
            can_take: false,
            can_use: false,
            msg_on_take: None,
            msg_on_use: None,
        };
        proof {
            assert(r.inventory.deep_view() =~= Seq::<Seq<char>>::empty());
            assert(r.accepts.deep_view() =~= Seq::<Seq<char>>::empty());
        }
        r
    }
}

/// True exactly when `name` occurs in the name list `v`.
pub fn names_contain(v: &Vec<String>, name: &str) -> (r: bool)
    ensures
        r == v.deep_view().contains(name@),
{
    let n = v.len();
    let mut i: usize = 0;
    while i < n
        invariant
            n == v@.len(),
            i <= n,
            forall|j: int| 0 <= j < i ==> #[trigger] v.deep_view()[j] != name@,
        decreases n - i,
    {
        if string_eq_str(&v[i], name) {
            assert(v.deep_view()[i as int] == name@);
            return true;
        }
        i += 1;
    }
    false
}

/// Removes the first occurrence of `name` from the name list, if any.
pub fn remove_name(v: &mut Vec<String>, name: &str)
    ensures
        ({
            let i = name_index(old(v).deep_view(), name@);
            if i >= 0 {
                final(v).deep_view() == old(v).deep_view().remove(i)
            } else {
                final(v).deep_view() == old(v).deep_view()
            }
        }),
{
    proof {
        lemma_name_index(v.deep_view(), name@);
    }
    let n = v.len();
    let mut i: usize = 0;
    while i < n
        invariant
            v@ == old(v)@,
            n == v@.len(),
            i <= n,
            forall|j: int| 0 <= j < i ==> #[trigger] v.deep_view()[j] != name@,
        decreases n - i,
    {
        if string_eq_str(&v[i], name) {
            let ghost before = v.deep_view();
            proof {
                assert(before =~= old(v).deep_view());
                lemma_name_index(before, name@);
                let idx = name_index(before, name@);
                assert(before.contains(name@)) by {
                    assert(before[i as int] == name@);
                }
                assert(idx >= 0);
                if idx < i {
                    assert(before[idx] != name@);
                } else if idx > i {
                    assert(before[i as int] != name@);
                }
                assert(idx == i);
            }
            v.remove(i);
            proof {
                assert(v.deep_view() =~= before.remove(i as int));
                assert(before == old(v).deep_view());
                assert(name_index(old(v).deep_view(), name@) == i as int);
                assert(v.deep_view() == old(v).deep_view().remove(i as int));
            }
            return;
        }
        i += 1;
    }
    proof {
        lemma_name_index(v.deep_view(), name@);
        let idx = name_index(v.deep_view(), name@);
        if idx >= 0 {
            assert(v.deep_view()[idx] == name@);
        }
    }
}

impl Object {
    /// True exactly when this object's nested name list holds `name`.
    pub fn contains(&self, name: String) -> (r: bool)
        ensures
            r == self@.inventory.contains(name@),
    {
        names_contain(&self.inventory, name.as_str())
    }
}

} // verus!
