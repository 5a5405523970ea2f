//! Stable sorting by a key made of a flag and a byte string.

use vstd::prelude::*;

verus! {

/// A sort key: entries with the flag come after those without, and within each
/// group the byte strings decide.
pub struct SortKey {
    pub late: bool,
    pub text: Vec<u8>,
}

/// The mathematical counterpart of [`SortKey`].
#[verifier::ext_equal]
pub struct KeyView {
    pub late: bool,
    pub text: Seq<u8>,
}

impl View for SortKey {
    type V = KeyView;

    open spec fn view(&self) -> KeyView {
        KeyView { late: self.late, text: self.text@ }
    }
}

/// The views of a sequence of keys.
pub open spec fn key_views(keys: Seq<SortKey>) -> Seq<KeyView> {
    keys.map_values(|k: SortKey| k@)
}

/// `a` comes before `b` in lexicographic order.
pub open spec fn bytes_less(a: Seq<u8>, b: Seq<u8>) -> bool
    decreases a.len(),
{
    if b.len() == 0 {
        false
    } else if a.len() == 0 {
        true
    } else if a[0] == b[0] {
        bytes_less(a.drop_first(), b.drop_first())
    } else {
        a[0] < b[0]
    }
}

/// `a` sorts before `b`.
pub open spec fn key_less(a: KeyView, b: KeyView) -> bool {
    if a.late == b.late {
        bytes_less(a.text, b.text)
    } else {
        b.late
    }
}

/// Entry `i` comes before entry `j`: its key is smaller, or the keys are equal
/// and it stands first.
pub open spec fn goes_before(keys: Seq<KeyView>, i: int, j: int) -> bool {
    key_less(keys[i], keys[j]) || (keys[i] == keys[j] && i < j)
}

/// `order` lists every place of `keys` once, such that each comes before all
/// that follow it.
pub open spec fn is_stable_order(order: Seq<int>, keys: Seq<KeyView>) -> bool {
    &&& order.len() == keys.len()
    &&& forall|x: int| #[trigger] order.contains(x) <==> 0 <= x < keys.len()
    &&& forall|p: int, q: int|
        0 <= p < q < order.len() ==> goes_before(keys, #[trigger] order[p], #[trigger] order[q])
}

/// The places of `keys` in sorted order.
pub open spec fn stable_order(keys: Seq<KeyView>) -> Seq<int> {
    choose|order: Seq<int>| is_stable_order(order, keys)
}

// ---------------------------------------------------------------------------
// The order on keys
// ---------------------------------------------------------------------------

/// Of two byte strings exactly one comes first, unless they are equal.
proof fn lemma_bytes_total(a: Seq<u8>, b: Seq<u8>)
    ensures
        a == b ==> !bytes_less(a, b),
        bytes_less(a, b) ==> !bytes_less(b, a),
        bytes_less(a, b) || bytes_less(b, a) || a == b,
    decreases a.len(),
{
    if a.len() > 0 && b.len() > 0 && a[0] == b[0] {
        lemma_bytes_total(a.drop_first(), b.drop_first());
        if a.drop_first() == b.drop_first() {
            assert(a == seq![a[0]] + a.drop_first());
            assert(b == seq![b[0]] + b.drop_first());
        }
    } else if a.len() == 0 && b.len() == 0 {
        assert(a == b);
    }
}

/// The order on byte strings is transitive.
proof fn lemma_bytes_transitive(a: Seq<u8>, b: Seq<u8>, c: Seq<u8>)
    requires
        bytes_less(a, b),
        bytes_less(b, c),
    ensures
        bytes_less(a, c),
    decreases a.len(),
{
    if a.len() > 0 && a[0] == b[0] && b[0] == c[0] {
        lemma_bytes_transitive(a.drop_first(), b.drop_first(), c.drop_first());
    }
}

/// Of two keys exactly one is smaller, unless they are equal.
pub proof fn keys_are_totally_ordered(a: KeyView, b: KeyView)
    ensures
        !key_less(a, a),
        key_less(a, b) ==> !key_less(b, a),
        key_less(a, b) || key_less(b, a) || a == b,
{
    lemma_bytes_total(a.text, b.text);
    lemma_bytes_total(a.text, a.text);
}

/// The order on keys is transitive.
pub proof fn key_order_is_transitive(a: KeyView, b: KeyView, c: KeyView)
    requires
        key_less(a, b),
        key_less(b, c),
    ensures
        key_less(a, c),
{
    if a.late == b.late && b.late == c.late {
        lemma_bytes_transitive(a.text, b.text, c.text);
    }
}

// ---------------------------------------------------------------------------
// The sorted order exists and is unique
// ---------------------------------------------------------------------------

/// `pos` is where a further entry with key `k` belongs in `order`: behind all
/// that are not larger, before all that are.
pub open spec fn belongs_at(order: Seq<int>, keys: Seq<KeyView>, k: KeyView, pos: int) -> bool {
    &&& 0 <= pos <= order.len()
    &&& forall|p: int| 0 <= p < pos ==> !key_less(k, keys[#[trigger] order[p]])
    &&& forall|p: int| pos <= p < order.len() ==> key_less(k, keys[#[trigger] order[p]])
}

/// Inserting a further entry where it belongs keeps the order.
proof fn lemma_insert(order: Seq<int>, keys: Seq<KeyView>, k: KeyView, pos: int)
    requires
        is_stable_order(order, keys),
        belongs_at(order, keys, k, pos),
    ensures
        is_stable_order(order.insert(pos, keys.len() as int), keys.push(k)),
{
    let n = keys.len() as int;
    let more = keys.push(k);
    let new = order.insert(pos, n);
    assert forall|x: int| #[trigger] new.contains(x) <==> 0 <= x < more.len() by {
        if new.contains(x) {
            let p = choose|p: int| 0 <= p < new.len() && new[p] == x;
            if p < pos {
                assert(order[p] == x);
                assert(order.contains(x));
            } else if p > pos {
                assert(order[p - 1] == x);
                assert(order.contains(x));
            }
        }
        if 0 <= x < more.len() {
            if x == n {
                assert(new[pos] == x);
            } else {
                assert(order.contains(x));
                let p = choose|p: int| 0 <= p < order.len() && order[p] == x;
                if p < pos {
                    assert(new[p] == x);
                } else {
                    assert(new[p + 1] == x);
                }
            }
        }
    }
    assert forall|p: int, q: int| 0 <= p < q < new.len() implies goes_before(
        more,
        #[trigger] new[p],
        #[trigger] new[q],
    ) by {
        let a: int = if p < pos {
            p
        } else {
            p - 1
        };
        let b: int = if q < pos {
            q
        } else {
            q - 1
        };
        if p != pos {
            assert(new[p] == order[a]);
            assert(order.contains(order[a]));
        }
        if q != pos {
            assert(new[q] == order[b]);
            assert(order.contains(order[b]));
        }
        if q == pos {
            assert(!key_less(k, keys[order[a]]));
            keys_are_totally_ordered(k, keys[order[a]]);
        } else if p == pos {
            assert(key_less(k, keys[order[b]]));
        } else {
            assert(goes_before(keys, order[a], order[b]));
        }
    }
}

/// If `k` is not smaller than the entry at `p`, it is not smaller than any
/// entry before that; if it is smaller, it is smaller than any entry behind.
proof fn lemma_sorted_around(order: Seq<int>, keys: Seq<KeyView>, k: KeyView, p: int, q: int)
    requires
        is_stable_order(order, keys),
        0 <= p < q < order.len(),
    ensures
        key_less(k, keys[order[p]]) ==> key_less(k, keys[order[q]]),
{
    if key_less(k, keys[order[p]]) {
        assert(goes_before(keys, order[p], order[q]));
        if key_less(keys[order[p]], keys[order[q]]) {
            key_order_is_transitive(k, keys[order[p]], keys[order[q]]);
        }
    }
}

/// There is a place where a further entry belongs.
proof fn lemma_place_exists(order: Seq<int>, keys: Seq<KeyView>, k: KeyView) -> (pos: int)
    requires
        is_stable_order(order, keys),
    ensures
        belongs_at(order, keys, k, pos),
{
    lemma_place_within(order, keys, k, order.len() as int)
}

/// There is such a place in `0..=top`, if all entries from `top` on are larger.
proof fn lemma_place_within(order: Seq<int>, keys: Seq<KeyView>, k: KeyView, top: int) -> (pos: int)
    requires
        is_stable_order(order, keys),
        0 <= top <= order.len(),
        forall|p: int| top <= p < order.len() ==> key_less(k, keys[#[trigger] order[p]]),
    ensures
        belongs_at(order, keys, k, pos),
    decreases top,
{
    if top == 0 {
        0
    } else if key_less(k, keys[order[top - 1]]) {
        lemma_place_within(order, keys, k, top - 1)
    } else {
        assert forall|p: int| 0 <= p < top implies !key_less(k, keys[#[trigger] order[p]]) by {
            if p < top - 1 {
                lemma_sorted_around(order, keys, k, p, top - 1);
            }
        }
        top
    }
}

/// Every sequence of keys has a sorted order.
proof fn lemma_order_exists(keys: Seq<KeyView>) -> (order: Seq<int>)
    ensures
        is_stable_order(order, keys),
    decreases keys.len(),
{
    if keys.len() == 0 {
        let order = Seq::<int>::empty();
        assert(forall|x: int| !order.contains(x));
        order
    } else {
        let k = keys.last();
        let fewer = keys.drop_last();
        let order = lemma_order_exists(fewer);
        let pos = lemma_place_exists(order, fewer, k);
        lemma_insert(order, fewer, k, pos);
        assert(fewer.push(k) == keys);
        order.insert(pos, fewer.len() as int)
    }
}

/// Two sorted orders of the same keys agree up to place `n`.
proof fn lemma_orders_agree(a: Seq<int>, b: Seq<int>, keys: Seq<KeyView>, n: int)
    requires
        is_stable_order(a, keys),
        is_stable_order(b, keys),
        0 <= n <= keys.len(),
    ensures
        forall|p: int| 0 <= p < n ==> #[trigger] a[p] == b[p],
    decreases n,
{
    if n > 0 {
        lemma_orders_agree(a, b, keys, n - 1);
        let i = n - 1;
        assert(a.contains(a[i]) && b.contains(b[i]));
        assert(b.contains(a[i]) && a.contains(b[i]));
        let j = choose|j: int| 0 <= j < b.len() && b[j] == a[i];
        let l = choose|l: int| 0 <= l < a.len() && a[l] == b[i];
        if j < i {
            assert(a[j] == b[j]);
            assert(goes_before(keys, a[j], a[i]));
            keys_are_totally_ordered(keys[a[i]], keys[a[i]]);
        } else if l < i {
            assert(a[l] == b[l]);
            assert(goes_before(keys, b[l], b[i]));
            keys_are_totally_ordered(keys[b[i]], keys[b[i]]);
        } else if a[i] != b[i] {
            assert(goes_before(keys, b[i], b[j]));
            assert(goes_before(keys, a[i], a[l]));
            keys_are_totally_ordered(keys[a[i]], keys[b[i]]);
            keys_are_totally_ordered(keys[b[i]], keys[a[i]]);
        }
    }
}

/// Every sequence of keys has exactly one sorted order.
pub proof fn stable_order_is_unique(keys: Seq<KeyView>, order: Seq<int>)
    ensures
        is_stable_order(stable_order(keys), keys),
        is_stable_order(order, keys) <==> order == stable_order(keys),
{
    let witness = lemma_order_exists(keys);
    assert(is_stable_order(witness, keys));
    if is_stable_order(order, keys) {
        lemma_orders_agree(order, stable_order(keys), keys, keys.len() as int);
        assert(order == stable_order(keys));
    }
}

// ---------------------------------------------------------------------------
// Executable version
// ---------------------------------------------------------------------------

/// The places as mathematical integers.
pub open spec fn places(v: Seq<usize>) -> Seq<int> {
    v.map_values(|i: usize| i as int)
}

/// Whether `a` comes before `b` in lexicographic order.
pub fn less_bytes(a: &Vec<u8>, b: &Vec<u8>) -> (r: bool)
    ensures
        r == bytes_less(a@, b@),
{
    let mut i: usize = 0;
    proof {
        assert(a@.skip(0) == a@ && b@.skip(0) == b@);
    }
    while i < a.len() && i < b.len() && a[i] == b[i]
        invariant
            i <= a@.len(),
            i <= b@.len(),
            bytes_less(a@, b@) == bytes_less(a@.skip(i as int), b@.skip(i as int)),
        decreases a@.len() - i,
    {
        proof {
            assert(a@.skip(i as int).drop_first() == a@.skip(i + 1));
            assert(b@.skip(i as int).drop_first() == b@.skip(i + 1));
        }
        i = i + 1;
    }
    if i == b.len() {
        false
    } else if i == a.len() {
        true
    } else {
        a[i] < b[i]
    }
}

/// Whether `a` sorts before `b`.
pub fn less_key(a: &SortKey, b: &SortKey) -> (r: bool)
    ensures
        r == key_less(a@, b@),
{
    if a.late == b.late {
        less_bytes(&a.text, &b.text)
    } else {
        b.late
    }
}

/// The places of `keys` in sorted order, equal keys in the order given.
pub fn sorted_places(keys: &Vec<SortKey>) -> (r: Vec<usize>)
    ensures
        places(r@) == stable_order(key_views(keys@)),
        is_stable_order(places(r@), key_views(keys@)),
{
    let mut out: Vec<usize> = Vec::new();
    let ghost all = key_views(keys@);
    let mut n: usize = 0;
    proof {
        assert(forall|x: int| !places(out@).contains(x));
    }
    while n < keys.len()
        invariant
            n <= keys@.len(),
            all == key_views(keys@),
            is_stable_order(places(out@), all.take(n as int)),
        decreases keys@.len() - n,
    {
        let mut pos: usize = out.len();
        let ghost order = places(out@);
        let ghost sofar = all.take(n as int);
        let ghost k = all[n as int];
        proof {
            assert forall|p: int| 0 <= p < out@.len() implies 0 <= #[trigger] out@[p] < n by {
                assert(order[p] == out@[p]);
                assert(order.contains(order[p]));
            }
        }
        while pos > 0 && less_key(&keys[n], &keys[out[pos - 1]])
            invariant
                pos <= out@.len(),
                n < keys@.len(),
                all == key_views(keys@),
                order == places(out@),
                sofar == all.take(n as int),
                k == all[n as int],
                forall|p: int| 0 <= p < out@.len() ==> 0 <= #[trigger] out@[p] < n,
                forall|p: int| pos <= p < order.len() ==> key_less(k, sofar[#[trigger] order[p]]),
            decreases pos,
        {
            proof {
                assert(order[pos - 1] == out@[pos - 1]);
            }
            pos = pos - 1;
        }
        proof {
            assert forall|p: int| 0 <= p < pos implies !key_less(k, sofar[#[trigger] order[p]]) by {
                assert(order[pos - 1] == out@[pos - 1]);
                assert(!key_less(k, sofar[order[pos - 1]]));
                if p < pos - 1 {
                    lemma_sorted_around(order, sofar, k, p, pos - 1);
                }
            }
            lemma_insert(order, sofar, k, pos as int);
            assert(sofar.push(k) == all.take(n + 1));
        }
        let ghost before = out@;
        out.insert(pos, n);
        proof {
            assert(places(out@) == order.insert(pos as int, n as int));
        }
        n = n + 1;
    }
    proof {
        assert(all.take(n as int) == all);
        stable_order_is_unique(all, places(out@));
    }
    out
}

// ---------------------------------------------------------------------------
// Which order it is
// ---------------------------------------------------------------------------

/// Of two byte strings the one with the smaller byte where they first differ
/// comes first; where they do not differ, the one that ends first.
pub proof fn first_difference_decides(
    common: Seq<u8>,
    x: u8,
    a: Seq<u8>,
    y: u8,
    b: Seq<u8>,
)
    ensures
        x != y ==> (bytes_less(common + seq![x] + a, common + seq![y] + b) <==> x < y),
        bytes_less(common, common + seq![x] + a),
        !bytes_less(common + seq![x] + a, common),
        !bytes_less(common, common),
    decreases common.len(),
{
    let p = common + seq![x] + a;
    let q = common + seq![y] + b;
    if common.len() > 0 {
        let rest = common.drop_first();
        first_difference_decides(rest, x, a, y, b);
        assert(p.drop_first() == rest + seq![x] + a);
        assert(q.drop_first() == rest + seq![y] + b);
        assert(p[0] == common[0] && q[0] == common[0]);
    } else {
        assert(p[0] == x && q[0] == y);
    }
}

/// A key with the flag comes after every key without it; of two keys that agree
/// on the flag, the byte strings decide.
pub proof fn flag_decides_first(a: KeyView, b: KeyView)
    ensures
        !a.late && b.late ==> key_less(a, b),
        a.late && !b.late ==> !key_less(a, b),
        a.late == b.late ==> (key_less(a, b) <==> bytes_less(a.text, b.text)),
{
}

/// The sorted order lists every place once; what stands earlier in it has no
/// larger key, and of two equal keys the one that was given first stands first.
pub proof fn sorting_is_stable(keys: Seq<KeyView>)
    ensures
        ({
            let order = stable_order(keys);
            &&& order.len() == keys.len()
            &&& order.no_duplicates()
            &&& forall|x: int| 0 <= x < keys.len() ==> #[trigger] order.contains(x)
            &&& forall|p: int| 0 <= p < order.len() ==> 0 <= #[trigger] order[p] < keys.len()
            &&& forall|p: int, q: int|
                #![trigger order[p], order[q]]
                0 <= p < q < order.len() ==> {
                    &&& !key_less(keys[order[q]], keys[order[p]])
                    &&& keys[order[p]] == keys[order[q]] ==> order[p] < order[q]
                }
        }),
{
    let order = stable_order(keys);
    stable_order_is_unique(keys, order);
    assert forall|p: int| 0 <= p < order.len() implies 0 <= #[trigger] order[p] < keys.len() by {
        assert(order.contains(order[p]));
    }
    assert forall|p: int, q: int|
        #![trigger order[p], order[q]]
        0 <= p < q < order.len() implies !key_less(keys[order[q]], keys[order[p]]) && order[p]
        != order[q] && (keys[order[p]] == keys[order[q]] ==> order[p] < order[q]) by {
        assert(goes_before(keys, order[p], order[q]));
        keys_are_totally_ordered(keys[order[p]], keys[order[q]]);
        keys_are_totally_ordered(keys[order[q]], keys[order[q]]);
    }
}

/// The view of a key has its flag and its bytes; places are taken one by one.
pub proof fn keys_are_viewed_as_they_are(keys: Seq<SortKey>, v: Seq<usize>)
    ensures
        key_views(keys).len() == keys.len(),
        forall|i: int|
            0 <= i < keys.len() ==> (#[trigger] key_views(keys)[i]).late == keys[i].late && key_views(
                keys,
            )[i].text == keys[i].text@,
        places(v).len() == v.len(),
        forall|i: int| 0 <= i < v.len() ==> #[trigger] places(v)[i] == v[i],
{
}

} // verus!
