//! The order of device names and the comparison of two scans.
//!
//! Names are ordered as their UTF-8 encodings are, byte by byte, a proper
//! prefix before what it is a prefix of. A scan is reported in that order,
//! so that two scans of the same devices give the same list whatever order
//! the system listed them in.

use crate::protocol::names_view;
use vstd::prelude::*;
use vstd::relations::sorted_by;
use vstd::relations::total_ordering;
use vstd::seq_lib::lemma_sorted_unique;
use vstd::string::StringSliceAdditionalSpecFns;
use vstd::utf8::encode_utf8;
use vstd::utf8::encode_utf8_decode_utf8;

verus! {

/// Whether `a` comes before `b`, or is `b`, in the lexicographic order of
/// byte strings.
pub open spec fn bytes_le(a: Seq<u8>, b: Seq<u8>) -> bool
    decreases a.len(),
{
    if a.len() == 0 {
        true
    } else if b.len() == 0 {
        false
    } else if a[0] != b[0] {
        a[0] < b[0]
    } else {
        bytes_le(a.drop_first(), b.drop_first())
    }
}

/// Whether the name `a` comes before the name `b`, or is `b`.
pub open spec fn name_le(a: Seq<char>, b: Seq<char>) -> bool {
    bytes_le(encode_utf8(a), encode_utf8(b))
}

/// The order of names as a relation.
pub open spec fn name_order() -> spec_fn(Seq<char>, Seq<char>) -> bool {
    |a: Seq<char>, b: Seq<char>| name_le(a, b)
}

/// The names of a scan in the order in which they are reported.
pub open spec fn sorted_names(names: Seq<Seq<char>>) -> Seq<Seq<char>> {
    names.sort_by(name_order())
}

/// Every byte string is at or before itself.
pub proof fn lemma_bytes_le_reflexive(a: Seq<u8>)
    ensures
        bytes_le(a, a),
    decreases a.len(),
{
    if a.len() > 0 {
        lemma_bytes_le_reflexive(a.drop_first());
    }
}

/// Two byte strings that are each at or before the other are equal.
pub proof fn lemma_bytes_le_antisymmetric(a: Seq<u8>, b: Seq<u8>)
    requires
        bytes_le(a, b),
        bytes_le(b, a),
    ensures
        a == b,
    decreases a.len(),
{
    if a.len() == 0 || b.len() == 0 {
        assert(a =~= b);
    } else {
        lemma_bytes_le_antisymmetric(a.drop_first(), b.drop_first());
        assert(a =~= seq![a[0]] + a.drop_first());
        assert(b =~= seq![b[0]] + b.drop_first());
    }
}

/// The order of byte strings carries over a string in between.
pub proof fn lemma_bytes_le_transitive(a: Seq<u8>, b: Seq<u8>, c: Seq<u8>)
    requires
        bytes_le(a, b),
        bytes_le(b, c),
    ensures
        bytes_le(a, c),
    decreases a.len(),
{
    if a.len() > 0 && b.len() > 0 && c.len() > 0 && a[0] == b[0] && b[0] == c[0] {
        lemma_bytes_le_transitive(a.drop_first(), b.drop_first(), c.drop_first());
    }
}

/// Of any two byte strings, one is at or before the other.
pub proof fn lemma_bytes_le_total(a: Seq<u8>, b: Seq<u8>)
    ensures
        bytes_le(a, b) || bytes_le(b, a),
    decreases a.len(),
{
    if a.len() > 0 && b.len() > 0 && a[0] == b[0] {
        lemma_bytes_le_total(a.drop_first(), b.drop_first());
    }
}

/// The order of names is total: any two names compare, and two names that
/// compare both ways are one name.
pub proof fn lemma_name_order_total()
    ensures
        total_ordering(name_order()),
{
    let r = name_order();
    assert forall|x: Seq<char>| #[trigger] r(x, x) by {
        lemma_bytes_le_reflexive(encode_utf8(x));
    }
    assert forall|x: Seq<char>, y: Seq<char>| #[trigger] r(x, y) && #[trigger] r(y, x) implies x
        == y by {
        lemma_bytes_le_antisymmetric(encode_utf8(x), encode_utf8(y));
        encode_utf8_decode_utf8(x);
        encode_utf8_decode_utf8(y);
    }
    assert forall|x: Seq<char>, y: Seq<char>, z: Seq<char>| #[trigger]
        r(x, y) && #[trigger] r(y, z) implies r(x, z) by {
        lemma_bytes_le_transitive(encode_utf8(x), encode_utf8(y), encode_utf8(z));
    }
    assert forall|x: Seq<char>, y: Seq<char>| #[trigger] r(x, y) || #[trigger] r(y, x) by {
        lemma_bytes_le_total(encode_utf8(x), encode_utf8(y));
    }
}

/// The reported order of a scan is the one list that holds the scanned names,
/// each as often as it was scanned, in ascending order.
pub proof fn lemma_sorted_names_characterized(names: Seq<Seq<char>>, list: Seq<Seq<char>>)
    ensures
        sorted_by(sorted_names(names), name_order()),
        sorted_names(names).to_multiset() == names.to_multiset(),
        sorted_by(list, name_order()) && list.to_multiset() == names.to_multiset() ==> list
            == sorted_names(names),
{
    lemma_name_order_total();
    names.lemma_sort_by_ensures(name_order());
    if sorted_by(list, name_order()) && list.to_multiset() == names.to_multiset() {
        lemma_sorted_unique(list, sorted_names(names), name_order());
    }
}

/// Two scans that found the same devices are reported as the same list,
/// whatever order each was listed in.
pub proof fn lemma_sorted_names_of_permutation(first: Seq<Seq<char>>, second: Seq<Seq<char>>)
    requires
        first.to_multiset() == second.to_multiset(),
    ensures
        sorted_names(first) == sorted_names(second),
{
    lemma_sorted_names_characterized(first, sorted_names(second));
    lemma_sorted_names_characterized(second, sorted_names(second));
}

/// Whether `a` comes before `b`, or equals it, byte by byte.
fn bytes_le_exec(a: &[u8], b: &[u8]) -> (r: bool)
    ensures
        r == bytes_le(a@, b@),
{
    let mut i: usize = 0;
    assert(a@.skip(0) =~= a@ && b@.skip(0) =~= b@);
    while i < a.len() && i < b.len()
        invariant
            i <= a.len(),
            i <= b.len(),
            bytes_le(a@, b@) == bytes_le(a@.skip(i as int), b@.skip(i as int)),
        decreases a.len() - i,
    {
        let x = a[i];
        let y = b[i];
        proof {
            assert(a@.skip(i as int)[0] == a@[i as int]);
            assert(b@.skip(i as int)[0] == b@[i as int]);
            assert(a@.skip(i as int).drop_first() =~= a@.skip(i + 1));
            assert(b@.skip(i as int).drop_first() =~= b@.skip(i + 1));
        }
        if x != y {
            return x < y;
        }
        i += 1;
    }
    i == a.len()
}

/// Whether the name `a` comes before the name `b`, or equals it.
pub fn name_le_exec(a: &String, b: &String) -> (r: bool)
    ensures
        r == name_le(a@, b@),
{
    bytes_le_exec(a.as_str().as_bytes(), b.as_str().as_bytes())
}

/// Sorts the names of a scan into the order in which they are reported. A
/// name that was listed twice stays twice.
pub fn sort_names(names: Vec<String>) -> (sorted: Vec<String>)
    ensures
        names_view(sorted@) == sorted_names(names_view(names@)),
{
    let ghost all = names_view(names@);
    let mut rest = names;
    let mut sorted: Vec<String> = Vec::new();
    proof {
        lemma_name_order_total();
        assert(names_view(sorted@) =~= Seq::<Seq<char>>::empty());
        assert(names_view(sorted@).to_multiset().add(names_view(rest@).to_multiset())
            =~= all.to_multiset()) by {
            broadcast use vstd::seq_lib::group_to_multiset_ensures;

        }
    }
    while rest.len() > 0
        invariant
            total_ordering(name_order()),
            sorted_by(names_view(sorted@), name_order()),
            names_view(sorted@).to_multiset().add(names_view(rest@).to_multiset())
                == all.to_multiset(),
        decreases rest.len(),
    {
        let ghost before_rest = names_view(rest@);
        let ghost before_sorted = names_view(sorted@);
        let name = rest.pop().unwrap();
        let mut at: usize = 0;
        while at < sorted.len() && name_le_exec(&sorted[at], &name)
            invariant
                at <= sorted.len(),
                names_view(sorted@) == before_sorted,
                forall|k: int| 0 <= k < at ==> name_le(#[trigger] before_sorted[k], name@),
            decreases sorted.len() - at,
        {
            at += 1;
        }
        sorted.insert(at, name);
        proof {
            let r = name_order();
            let after = names_view(sorted@);
            assert(after =~= before_sorted.insert(at as int, name@));
            assert(names_view(rest@) =~= before_rest.drop_last());
            assert(before_rest =~= names_view(rest@).push(name@));
            vstd::seq_lib::to_multiset_insert(before_sorted, at as int, name@);
            vstd::seq_lib::to_multiset_build(names_view(rest@), name@);
            assert(after.to_multiset().add(names_view(rest@).to_multiset())
                =~= before_sorted.to_multiset().add(before_rest.to_multiset()));
            assert forall|i: int, j: int| 0 <= i < j < after.len() implies #[trigger] r(
                after[i],
                after[j],
            ) by {
                if j < at {
                    assert(r(before_sorted[i], before_sorted[j]));
                } else if j == at {
                    assert(name_le(before_sorted[i], name@));
                } else if i == at {
                    // the name goes before the first one that is not below it
                    assert(!name_le(before_sorted[at as int], name@));
                    assert(r(before_sorted[at as int], name@) || r(name@, before_sorted[at as int]));
                    if j - 1 > at {
                        assert(r(before_sorted[at as int], before_sorted[j - 1]));
                    }
                    assert(r(name@, before_sorted[at as int]) && r(
                        before_sorted[at as int],
                        before_sorted[j - 1],
                    ) ==> r(name@, before_sorted[j - 1]));
                } else if i < at {
                    assert(r(before_sorted[i], before_sorted[j - 1]));
                } else {
                    assert(r(before_sorted[i - 1], before_sorted[j - 1]));
                }
            }
        }
    }
    proof {
        assert(names_view(rest@) =~= Seq::<Seq<char>>::empty());
        assert(names_view(sorted@).to_multiset() =~= all.to_multiset()) by {
            broadcast use vstd::seq_lib::group_to_multiset_ensures;

        }
        lemma_sorted_names_characterized(all, names_view(sorted@));
    }
    sorted
}

/// Whether `name` is one of `names`.
pub fn contains_name(names: &Vec<String>, name: &String) -> (found: bool)
    ensures
        found == names_view(names@).contains(name@),
{
    let mut i: usize = 0;
    while i < names.len()
        invariant
            i <= names.len(),
            forall|k: int| 0 <= k < i ==> names_view(names@)[k] != name@,
        decreases names.len() - i,
    {
        if names[i] == *name {
            assert(names_view(names@)[i as int] == name@);
            return true;
        }
        i += 1;
    }
    false
}

/// Whether two lists hold the same names in the same places.
pub fn same_names(a: &Vec<String>, b: &Vec<String>) -> (same: bool)
    ensures
        same == (names_view(a@) == names_view(b@)),
{
    if a.len() != b.len() {
        assert(names_view(a@).len() != names_view(b@).len());
        return false;
    }
    let mut i: usize = 0;
    while i < a.len()
        invariant
            i <= a.len(),
            a.len() == b.len(),
            forall|k: int| 0 <= k < i ==> names_view(a@)[k] == names_view(b@)[k],
        decreases a.len() - i,
    {
        if a[i] != b[i] {
            assert(names_view(a@)[i as int] != names_view(b@)[i as int]);
            return false;
        }
        i += 1;
    }
    assert(names_view(a@) =~= names_view(b@));
    true
}

/// A copy of a list of names.
pub fn copy_names(names: &Vec<String>) -> (copy: Vec<String>)
    ensures
        names_view(copy@) == names_view(names@),
{
    let mut copy: Vec<String> = Vec::new();
    let mut i: usize = 0;
    while i < names.len()
        invariant
            i <= names.len(),
            copy.len() == i,
            forall|k: int| 0 <= k < i ==> copy@[k]@ == names@[k]@,
        decreases names.len() - i,
    {
        copy.push(names[i].clone());
        i += 1;
    }
    assert(names_view(copy@) =~= names_view(names@));
    copy
}

} // verus!
