//! Request collections on disk: the name of a collection's file, and the
//! order in which loaded collections are listed, most recently updated first.

use vstd::prelude::*;
use vstd::string::StringExecFns;
use vstd::utf8::encode_utf8;
use crate::text::lemma_text_of_bytes;

verus! {

/// `a` comes before `b` when both are compared byte by byte: at the first
/// place where they differ `a` has the smaller byte, or `a` ends there and `b` goes on.
pub open spec fn bytes_before(a: Seq<u8>, b: Seq<u8>) -> bool
    decreases a.len(),
{
    if b.len() == 0 {
        false
    } else if a.len() == 0 {
        true
    } else if a[0] != b[0] {
        a[0] < b[0]
    } else {
        bytes_before(a.drop_first(), b.drop_first())
    }
}

/// `a` comes before `b` in the order of strings, which is the order of their UTF-8 bytes.
pub open spec fn text_before(a: Seq<char>, b: Seq<char>) -> bool {
    bytes_before(encode_utf8(a), encode_utf8(b))
}

/// The texts of a list of strings.
pub open spec fn texts(v: Seq<String>) -> Seq<Seq<char>> {
    v.map_values(|s: String| s@)
}

/// `order` lists positions of `keys` so that a later key comes first, and of
/// two equal keys the one at the earlier position.
pub open spec fn is_ordered(keys: Seq<Seq<char>>, order: Seq<usize>) -> bool {
    &&& forall|k: int| 0 <= k < order.len() ==> (#[trigger] order[k]) < keys.len()
    &&& forall|k: int, l: int|
        0 <= k < l < order.len() ==> {
            let a = keys[(#[trigger] order[k]) as int];
            let b = keys[(#[trigger] order[l]) as int];
            text_before(b, a) || (a == b && order[k] < order[l])
        }
}

/// `order` lists every position of `keys` once, most recent key first; equal
/// keys stay in the order of their positions.
pub open spec fn is_newest_first(keys: Seq<Seq<char>>, order: Seq<usize>) -> bool {
    &&& order.len() == keys.len()
    &&& order.no_duplicates()
    &&& is_ordered(keys, order)
}

/// Nothing comes before itself.
pub proof fn lemma_before_is_irreflexive(a: Seq<u8>)
    ensures
        !bytes_before(a, a),
    decreases a.len(),
{
    if a.len() > 0 {
        lemma_before_is_irreflexive(a.drop_first());
    }
}

/// Of two different byte strings one comes before the other.
pub proof fn lemma_before_is_total(a: Seq<u8>, b: Seq<u8>)
    ensures
        bytes_before(a, b) || bytes_before(b, a) || a == b,
        !(bytes_before(a, b) && bytes_before(b, a)),
    decreases a.len(),
{
    if a.len() > 0 && b.len() > 0 && a[0] == b[0] {
        lemma_before_is_total(a.drop_first(), b.drop_first());
        if a.drop_first() == b.drop_first() {
            assert(a == seq![a[0]] + a.drop_first());
            assert(b == seq![b[0]] + b.drop_first());
        }
    } else if a.len() == 0 && b.len() == 0 {
        assert(a == b);
    }
}

/// What comes before something that comes before a third comes before the third.
pub proof fn lemma_before_is_transitive(a: Seq<u8>, b: Seq<u8>, c: Seq<u8>)
    requires
        bytes_before(a, b),
        bytes_before(b, c),
    ensures
        bytes_before(a, c),
    decreases a.len(),
{
    if a.len() > 0 && a[0] == b[0] && b[0] == c[0] {
        lemma_before_is_transitive(a.drop_first(), b.drop_first(), c.drop_first());
    }
}

/// An order of all positions holds every position.
proof fn lemma_every_position_occurs(n: nat, order: Seq<usize>, x: usize)
    requires
        order.len() == n,
        order.no_duplicates(),
        forall|k: int| 0 <= k < order.len() ==> (#[trigger] order[k]) < n,
        x < n,
    ensures
        order.contains(x),
{
    let ints = order.map_values(|v: usize| v as int);
    assert(ints.no_duplicates()) by {
        assert forall|i: int, j: int| 0 <= i < ints.len() && 0 <= j < ints.len() && i != j implies ints[i]
            != ints[j] by {
            assert(order[i] != order[j]);
        }
    }
    ints.unique_seq_to_set();
    vstd::set_lib::lemma_int_range(0, n as int);
    let all = vstd::set_lib::set_int_range(0, n as int);
    assert(ints.to_set().subset_of(all)) by {
        assert forall|v: int| ints.to_set().contains(v) implies all.contains(v) by {
            let k = choose|k: int| 0 <= k < ints.len() && ints[k] == v;
            assert(order[k] < n);
        }
    }
    vstd::seq_lib::seq_to_set_is_finite(ints);
    vstd::set_lib::lemma_subset_equality(ints.to_set(), all);
    assert(all.contains(x as int));
    assert(ints.contains(x as int));
    let k = choose|k: int| 0 <= k < ints.len() && ints[k] == x as int;
    assert(order[k] == x);
}

/// Two orders of the same keys agree on their first `upto` places.
proof fn lemma_orders_agree(keys: Seq<Seq<char>>, a: Seq<usize>, b: Seq<usize>, upto: int)
    requires
        is_newest_first(keys, a),
        is_newest_first(keys, b),
        0 <= upto <= keys.len(),
    ensures
        forall|j: int| 0 <= j < upto ==> a[j] == b[j],
    decreases upto,
{
    if upto > 0 {
        let k = upto - 1;
        lemma_orders_agree(keys, a, b, k);
        let x = a[k];
        let y = b[k];
        lemma_every_position_occurs(keys.len(), b, x);
        lemma_every_position_occurs(keys.len(), a, y);
        let m = choose|m: int| 0 <= m < b.len() && b[m] == x;
        let w = choose|w: int| 0 <= w < a.len() && a[w] == y;
        if x != y {
            // `x` stands after place `k` in `b`, and `y` after place `k` in `a`:
            // each would have to come before the other.
            if m < k {
                assert(a[m] == b[m]);
            }
            if w < k {
                assert(a[w] == b[w]);
            }
            assert(k < m && k < w);
            let kx = keys[x as int];
            let ky = keys[y as int];
            assert(text_before(ky, kx) || (kx == ky && x < y));
            assert(text_before(kx, ky) || (ky == kx && y < x));
            lemma_before_is_total(encode_utf8(kx), encode_utf8(ky));
            lemma_before_is_irreflexive(encode_utf8(kx));
        }
    }
}

/// The order of a list of keys is unique: two orders that list every
/// position once, later keys first and equal keys by position, are the same.
pub proof fn lemma_order_is_unique(keys: Seq<Seq<char>>, a: Seq<usize>, b: Seq<usize>)
    requires
        is_newest_first(keys, a),
        is_newest_first(keys, b),
    ensures
        a == b,
{
    lemma_orders_agree(keys, a, b, keys.len() as int);
    assert(a =~= b);
}

/// Tells whether `a` comes before `b` in the order of strings.
pub fn comes_before(a: &str, b: &str) -> (before: bool)
    ensures
        before == text_before(a@, b@),
{
    let x = a.as_bytes();
    let y = b.as_bytes();
    let n = x.len();
    let m = y.len();
    let mut i: usize = 0;
    proof {
        assert(x@.skip(0) == x@);
        assert(y@.skip(0) == y@);
    }
    while i < n && i < m
        invariant
            n == x@.len(),
            m == y@.len(),
            i <= n,
            i <= m,
            x@ == encode_utf8(a@),
            y@ == encode_utf8(b@),
            text_before(a@, b@) == bytes_before(x@.skip(i as int), y@.skip(i as int)),
        decreases n - i,
    {
        proof {
            assert(x@.skip(i as int).drop_first() == x@.skip(i + 1));
            assert(y@.skip(i as int).drop_first() == y@.skip(i + 1));
        }
        if x[i] != y[i] {
            return x[i] < y[i];
        }
        i += 1;
    }
    i < m
}

/// The order in which collections are listed, given the time of the last
/// update of each: positions of `updated_at`, most recently updated first.
/// Collections with the same time stay in the order in which they were given.
pub fn newest_first(updated_at: &Vec<String>) -> (order: Vec<usize>)
    ensures
        is_newest_first(texts(updated_at@), order@),
{
    let n = updated_at.len();
    let ghost keys = texts(updated_at@);
    let mut order: Vec<usize> = Vec::new();
    let mut i: usize = 0;
    while i < n
        invariant
            n == updated_at@.len(),
            keys == texts(updated_at@),
            i <= n,
            order@.len() == i,
            order@.no_duplicates(),
            is_ordered(keys, order@),
            forall|k: int| 0 <= k < order@.len() ==> (#[trigger] order@[k]) < i,
        decreases n - i,
    {
        let key = updated_at[i].as_str();
        let mut p: usize = 0;
        while p < i && !comes_before(updated_at[order[p]].as_str(), key)
            invariant
                n == updated_at@.len(),
                keys == texts(updated_at@),
                i < n,
                key@ == keys[i as int],
                order@.len() == i,
                p <= i,
                forall|k: int| 0 <= k < order@.len() ==> (#[trigger] order@[k]) < i,
                forall|k: int| 0 <= k < p ==> !text_before(keys[(#[trigger] order@[k]) as int], key@),
            decreases i - p,
        {
            p += 1;
        }
        let ghost before = order@;
        order.insert(p, i);
        proof {
            let after = order@;
            assert forall|k: int, l: int| 0 <= k < l < after.len() implies {
                let a = keys[(#[trigger] after[k]) as int];
                let b = keys[(#[trigger] after[l]) as int];
                text_before(b, a) || (a == b && after[k] < after[l])
            } by {
                let a = keys[after[k] as int];
                let b = keys[after[l] as int];
                if l == p {
                    // `a` was passed over: it does not come before the new key.
                    assert(after[k] == before[k]);
                    lemma_before_is_total(encode_utf8(a), encode_utf8(b));
                    if encode_utf8(a) == encode_utf8(b) {
                        lemma_text_of_bytes(a, b);
                    }
                } else if k == p {
                    // everything from `p` on comes before the new key.
                    assert(after[l] == before[l - 1]);
                    let first = keys[before[p as int] as int];
                    assert(text_before(first, a));
                    if l - 1 > p {
                        assert(text_before(b, first) || (first == b && before[p as int] < before[l - 1]));
                        if text_before(b, first) {
                            lemma_before_is_transitive(encode_utf8(b), encode_utf8(first), encode_utf8(a));
                        }
                    }
                } else {
                    let k0 = if k < p { k } else { k - 1 };
                    let l0 = if l < p { l } else { l - 1 };
                    assert(after[k] == before[k0]);
                    assert(after[l] == before[l0]);
                }
            }
            assert forall|k: int, l: int| 0 <= k < after.len() && 0 <= l < after.len() && k != l implies after[k]
                != after[l] by {
                let k0 = if k < p { k } else { k - 1 };
                let l0 = if l < p { l } else { l - 1 };
                if k != p && l != p {
                    assert(after[k] == before[k0]);
                    assert(after[l] == before[l0]);
                } else if k == p {
                    assert(after[l] == before[l0]);
                } else {
                    assert(after[k] == before[k0]);
                }
            }
            assert forall|k: int| 0 <= k < after.len() implies (#[trigger] after[k]) < i + 1 by {
                let k0 = if k < p { k } else { k - 1 };
                if k != p {
                    assert(after[k] == before[k0]);
                }
            }
        }
        i += 1;
    }
    order
}

/// The name of the file that holds the collection `id`.
pub fn collection_file_name(id: &str) -> (name: String)
    ensures
        name@ == id@ + ".json"@,
{
    String::from_str(id).concat(".json")
}

} // verus!
