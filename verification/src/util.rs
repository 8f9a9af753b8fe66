//! Small string utilities shared by the parser and the command handlers.
//!
//! Messages in this crate are assembled with verified concatenation, and all
//! string comparisons go through [`str_eq`], whose contract ties the result to
//! view equality.

use vstd::prelude::*;
use vstd::string::StringExecFns;

verus! {

/// One of the four compass directions a door can face.
pub enum Direction {
    North,
    South,
    East,
    West,
}

/// The horizontal rule printed above and below a room name.
pub fn get_room_name_border() -> (s: &'static str)
    ensures
        s@ == "==============="@,
{
    "==============="
}

/// Relies on `String::push`: appends the given character to the end of the string.
pub assume_specification[ String::push ](s: &mut String, c: char)
    ensures
        final(s)@ == old(s)@.push(c),
;

/// True exactly when the two string slices hold the same characters.
pub fn str_eq(a: &str, b: &str) -> (r: bool)
    ensures
        r == (a@ == b@),
{
    let alen = a.unicode_len();
    let blen = b.unicode_len();
    if alen != blen {
        return false;
    }
    let mut i: usize = 0;
    while i < alen
        invariant
            alen == a@.len(),
            blen == b@.len(),
            alen == blen,
            i <= alen,
            forall|j: int| 0 <= j < i ==> a@[j] == b@[j],
        decreases alen - i,
    {
        if a.get_char(i) != b.get_char(i) {
            return false;
        }
        i += 1;
    }
    proof {
        assert(a@ =~= b@);
    }
    true
}

/// True exactly when the `String` and the slice hold the same characters.
pub fn string_eq_str(a: &String, b: &str) -> (r: bool)
    ensures
        r == (a@ == b@),
{
    str_eq(a.as_str(), b)
}

/// The index of the first occurrence of `name` in a list of names, or `-1` if
/// the name does not occur. Lookups in this crate resolve to the first match,
/// so contracts are stated over this function.
pub open spec fn name_index(names: Seq<Seq<char>>, name: Seq<char>) -> int
    decreases names.len(),
{
    if names.len() == 0 {
        -1
    } else if names[0] == name {
        0
    } else if name_index(names.drop_first(), name) == -1 {
        -1
    } else {
        1 + name_index(names.drop_first(), name)
    }
}

/// What [`name_index`] means: a first occurrence is an occurrence that no
/// earlier index holds, and `-1` means the name occurs nowhere.
pub proof fn lemma_name_index(names: Seq<Seq<char>>, name: Seq<char>)
    ensures
        ({
            let i = name_index(names, name);
            &&& -1 <= i < names.len()
            &&& i >= 0 ==> names[i] == name && (forall|j: int|
                0 <= j < i ==> #[trigger] names[j] != name)
            &&& i == -1 ==> (forall|j: int| 0 <= j < names.len() ==> #[trigger] names[j] != name)
            &&& (i >= 0 <==> names.contains(name))
        }),
    decreases names.len(),
{
    if names.len() > 0 && names[0] != name {
        lemma_name_index(names.drop_first(), name);
        assert(forall|j: int| 1 <= j < names.len() ==> #[trigger] names[j] == names.drop_first()[
            j - 1
        ]);
    }
    let i = name_index(names, name);
    if i >= 0 {
        assert(names.contains(name)) by {
            assert(names[i] == name);
        }
    } else {
        if names.contains(name) {
            let k = choose|k: int| 0 <= k < names.len() && names[k] == name;
            assert(names[k] != name);
        }
    }
}

/// How often `name` occurs in a list of names.
pub open spec fn count_name(names: Seq<Seq<char>>, name: Seq<char>) -> nat
    decreases names.len(),
{
    if names.len() == 0 {
        0
    } else {
        (if names[0] == name {
            1 as nat
        } else {
            0 as nat
        }) + count_name(names.drop_first(), name)
    }
}

/// Appending one name raises its count by one and no other's.
pub proof fn lemma_count_name_push(names: Seq<Seq<char>>, name: Seq<char>, w: Seq<char>)
    ensures
        count_name(names.push(w), name) == count_name(names, name) + (if w == name {
            1 as nat
        } else {
            0 as nat
        }),
    decreases names.len(),
{
    if names.len() == 0 {
        assert(names.push(w).drop_first() =~= names);
        assert(names.push(w)[0] == w);
    } else {
        assert(names.push(w)[0] == names[0]);
        assert(names.push(w).drop_first() =~= names.drop_first().push(w));
        lemma_count_name_push(names.drop_first(), name, w);
    }
}

/// A name that occurs nowhere has count zero.
pub proof fn lemma_count_name_zero(names: Seq<Seq<char>>, name: Seq<char>)
    requires
        !names.contains(name),
    ensures
        count_name(names, name) == 0,
    decreases names.len(),
{
    if names.len() > 0 {
        assert(names[0] != name);
        assert(!names.drop_first().contains(name)) by {
            if names.drop_first().contains(name) {
                let k = choose|k: int|
                    0 <= k < names.drop_first().len() && names.drop_first()[k] == name;
                assert(names[k + 1] == name);
            }
        }
        lemma_count_name_zero(names.drop_first(), name);
    }
}

/// Copies a list of strings.
pub fn copy_strings(v: &Vec<String>) -> (r: Vec<String>)
    ensures
        r.deep_view() == v.deep_view(),
{
    let n = v.len();
    let mut out: Vec<String> = Vec::new();
    let mut i: usize = 0;
    while i < n
        invariant
            n == v@.len(),
            i <= n,
            out.deep_view() =~= v.deep_view().take(i as int),
        decreases n - i,
    {
        let ghost before = out.deep_view();
        out.push(v[i].clone());
        proof {
            assert(out.deep_view() =~= before.push(v.deep_view()[i as int]));
            assert(v.deep_view().take(i + 1) =~= v.deep_view().take(i as int).push(
                v.deep_view()[i as int],
            ));
        }
        i += 1;
    }
    proof {
        assert(v.deep_view().take(n as int) =~= v.deep_view());
    }
    out
}

/// The parts joined by `sep`: empty for no parts, otherwise the parts in
/// order with `sep` between each adjacent pair.
pub open spec fn join_with(parts: Seq<Seq<char>>, sep: Seq<char>) -> Seq<char>
    decreases parts.len(),
{
    if parts.len() == 0 {
        Seq::empty()
    } else if parts.len() == 1 {
        parts[0]
    } else {
        join_with(parts.drop_last(), sep) + sep + parts.last()
    }
}

/// Joins the strings of `v` with `sep` between each adjacent pair.
pub fn join_names(v: &Vec<String>, sep: &str) -> (r: String)
    ensures
        r@ == join_with(v.deep_view(), sep@),
{
    let n = v.len();
    let mut out = String::new();
    let mut i: usize = 0;
    while i < n
        invariant
            n == v@.len(),
            i <= n,
            out@ == join_with(v.deep_view().take(i as int), sep@),
        decreases n - i,
    {
        if i > 0 {
            out.append(sep);
        }
        out.append(v[i].as_str());
        proof {
            assert(v.deep_view().take(i + 1).drop_last() =~= v.deep_view().take(i as int));
            assert(v.deep_view().take(i + 1).last() == v.deep_view()[i as int]);
        }
        i += 1;
    }
    proof {
        assert(v.deep_view().take(n as int) =~= v.deep_view());
    }
    out
}

/// The decimal digits of `n`, most significant first.
pub open spec fn dec_digits(n: nat) -> Seq<char>
    decreases n,
{
    let last = ((n % 10) + 48) as char;
    if n < 10 {
        seq![last]
    } else {
        dec_digits(n / 10).push(last)
    }
}

/// The decimal digits of `n`, zero-padded on the left to at least two places.
pub open spec fn pad2(n: nat) -> Seq<char> {
    if n < 10 {
        "0"@ + dec_digits(n)
    } else {
        dec_digits(n)
    }
}

/// Renders `n` in decimal.
pub fn u64_to_dec(n: u64) -> (r: String)
    ensures
        r@ == dec_digits(n as nat),
{
    let mut digits: Vec<char> = Vec::new();
    let mut rest = n;
    proof {
        assert(dec_digits(n as nat) =~= dec_digits(n as nat) + digits@.reverse());
    }
    #[verifier::loop_isolation(true)]
    loop
        invariant_except_break
            dec_digits(n as nat) == dec_digits(rest as nat) + digits@.reverse(),
        ensures
            dec_digits(n as nat) == digits@.reverse(),
        decreases rest,
    {
        let d = ((rest % 10) as u8 + 48) as char;
        let ghost old_digits = digits@;
        let ghost old_rest = rest as nat;
        digits.push(d);
        rest = rest / 10;
        proof {
            assert(digits@.reverse() =~= seq![d] + old_digits.reverse());
            if old_rest >= 10 {
                assert(dec_digits(old_rest / 10) + (seq![d] + old_digits.reverse()) =~= (
                dec_digits(old_rest / 10).push(d)) + old_digits.reverse());
            } else {
                assert(dec_digits(old_rest) + old_digits.reverse() =~= seq![d]
                    + old_digits.reverse());
            }
        }
        if rest == 0 {
            break;
        }
    }
    let mut out = String::new();
    let mut i: usize = digits.len();
    proof {
        assert(out@ =~= digits@.reverse().take(0));
    }
    while i > 0
        invariant
            i <= digits@.len(),
            out@ == digits@.reverse().take(digits@.len() - i),
        decreases i,
    {
        i = i - 1;
        out.push(digits[i]);
        proof {
            let r = digits@.reverse();
            assert(r.take(digits@.len() - i) =~= r.take(digits@.len() - (i + 1)).push(
                r[digits@.len() - i - 1],
            ));
        }
    }
    proof {
        assert(digits@.reverse().take(digits@.len() - 0) =~= digits@.reverse());
    }
    out
}

} // verus!
