//! The order in which folder listings are shown: by a key made of a group
//! flag and a text compared character by character (the order of
//! `(bool, String)`), keeping listing order between equal keys.

use vstd::prelude::*;

verus! {

/// Lexicographic order on texts, character by character (for UTF-8
/// strings this is the order of `String`).
pub open spec fn text_lt(a: Seq<char>, b: Seq<char>) -> bool
    decreases a.len(),
{
    if a.len() == 0 {
        b.len() > 0
    } else if b.len() == 0 {
        false
    } else if a[0] != b[0] {
        a[0] < b[0]
    } else {
        text_lt(a.drop_first(), b.drop_first())
    }
}

pub proof fn lemma_text_lt_irreflexive(a: Seq<char>)
    ensures
        !text_lt(a, a),
    decreases a.len(),
{
    if a.len() > 0 {
        lemma_text_lt_irreflexive(a.drop_first());
    }
}

pub proof fn lemma_text_lt_transitive(a: Seq<char>, b: Seq<char>, c: Seq<char>)
    requires
        text_lt(a, b),
        text_lt(b, c),
    ensures
        text_lt(a, c),
    decreases a.len(),
{
    if a.len() > 0 && b.len() > 0 && c.len() > 0 {
        if a[0] == b[0] && b[0] == c[0] {
            lemma_text_lt_transitive(a.drop_first(), b.drop_first(), c.drop_first());
        }
    }
}

pub proof fn lemma_text_lt_total(a: Seq<char>, b: Seq<char>)
    requires
        a != b,
    ensures
        text_lt(a, b) || text_lt(b, a),
    decreases a.len(),
{
    if a.len() > 0 && b.len() > 0 {
        if a[0] == b[0] {
            if a.drop_first() == b.drop_first() {
                assert(a =~= seq![a[0]] + a.drop_first());
                assert(b =~= seq![b[0]] + b.drop_first());
            }
            lemma_text_lt_total(a.drop_first(), b.drop_first());
        }
    } else if a.len() == 0 && b.len() == 0 {
        assert(a =~= b);
    }
}

pub proof fn lemma_text_lt_asymmetric(a: Seq<char>, b: Seq<char>)
    requires
        text_lt(a, b),
    ensures
        !text_lt(b, a),
{
    if text_lt(b, a) {
        lemma_text_lt_transitive(a, b, a);
        lemma_text_lt_irreflexive(a);
    }
}

/// A sort key: a group flag (`false` sorts first) and a text.
pub struct SortKey {
    pub group: bool,
    pub text: Vec<char>,
}

/// The value of a key.
pub open spec fn key_of(k: SortKey) -> (bool, Seq<char>) {
    (k.group, k.text@)
}

/// The order of `(bool, String)` keys.
pub open spec fn key_lt(a: (bool, Seq<char>), b: (bool, Seq<char>)) -> bool {
    (!a.0 && b.0) || (a.0 == b.0 && text_lt(a.1, b.1))
}

/// Entry `i` comes before entry `j`: smaller key, or equal key and earlier
/// in the listing.
pub open spec fn comes_before(keys: Seq<(bool, Seq<char>)>, i: int, j: int) -> bool {
    key_lt(keys[i], keys[j]) || (keys[i] == keys[j] && i < j)
}

proof fn lemma_comes_before_transitive(keys: Seq<(bool, Seq<char>)>, i: int, j: int, k: int)
    requires
        comes_before(keys, i, j),
        comes_before(keys, j, k),
    ensures
        comes_before(keys, i, k),
{
    if keys[i].0 == keys[j].0 && keys[j].0 == keys[k].0 {
        if text_lt(keys[i].1, keys[j].1) && text_lt(keys[j].1, keys[k].1) {
            lemma_text_lt_transitive(keys[i].1, keys[j].1, keys[k].1);
        }
    }
}

proof fn lemma_comes_before_total(keys: Seq<(bool, Seq<char>)>, i: int, j: int)
    requires
        i != j,
    ensures
        comes_before(keys, i, j) || comes_before(keys, j, i),
{
    if keys[i] != keys[j] && keys[i].0 == keys[j].0 {
        assert(keys[i].1 != keys[j].1);
        lemma_text_lt_total(keys[i].1, keys[j].1);
    }
}

proof fn lemma_comes_before_asymmetric(keys: Seq<(bool, Seq<char>)>, i: int, j: int)
    requires
        comes_before(keys, i, j),
    ensures
        !comes_before(keys, j, i),
{
    if keys[i].0 == keys[j].0 {
        if text_lt(keys[i].1, keys[j].1) {
            lemma_text_lt_asymmetric(keys[i].1, keys[j].1);
        }
        if keys[i] == keys[j] {
            lemma_text_lt_irreflexive(keys[i].1);
        }
    }
}

/// `order` lists every index of `keys` once, sorted by key and, between
/// equal keys, by index: the result of a stable sort.
pub open spec fn is_stable_order(keys: Seq<(bool, Seq<char>)>, order: Seq<usize>) -> bool {
    &&& order.len() == keys.len()
    &&& forall|a: int| 0 <= a < order.len() ==> (#[trigger] order[a]) < keys.len()
    &&& forall|a: int, b: int|
        0 <= a < b < order.len() ==> comes_before(keys, #[trigger] order[a] as int, #[trigger] order[b] as int)
}

/// Whether `a` sorts strictly before `b` as texts.
pub fn text_less(a: &[char], b: &[char]) -> (r: bool)
    ensures
        r == text_lt(a@, b@),
{
    let mut i: usize = 0;
    assert(a@.skip(0) =~= a@);
    assert(b@.skip(0) =~= b@);
    while i < a.len() && i < b.len() && a[i] == b[i]
        invariant
            i <= a@.len(),
            i <= b@.len(),
            text_lt(a@, b@) == text_lt(a@.skip(i as int), b@.skip(i as int)),
        decreases a@.len() - i,
    {
        assert(a@.skip(i as int).drop_first() =~= a@.skip(i + 1));
        assert(b@.skip(i as int).drop_first() =~= b@.skip(i + 1));
        i = i + 1;
    }
    if i == a.len() {
        i < b.len()
    } else if i == b.len() {
        false
    } else {
        a[i] < b[i]
    }
}

/// Whether key `a` sorts strictly before key `b`.
pub fn key_less(a: &SortKey, b: &SortKey) -> (r: bool)
    ensures
        r == key_lt(key_of(*a), key_of(*b)),
{
    if a.group != b.group {
        !a.group
    } else {
        text_less(&a.text, &b.text)
    }
}

/// The indices of `keys` in stably sorted order.
pub fn stable_order(keys: &Vec<SortKey>) -> (order: Vec<usize>)
    ensures
        is_stable_order(keys@.map_values(|k: SortKey| key_of(k)), order@),
{
    let ghost kv = keys@.map_values(|k: SortKey| key_of(k));
    let n = keys.len();
    let mut order: Vec<usize> = Vec::new();
    let mut i: usize = 0;
    while i < n
        invariant
            i <= n == keys@.len(),
            kv == keys@.map_values(|k: SortKey| key_of(k)),
            order@.len() == i,
            forall|a: int| 0 <= a < order@.len() ==> (#[trigger] order@[a]) < i,
            forall|a: int, b: int|
                0 <= a < b < order@.len() ==> order@[a] != order@[b],
            forall|a: int, b: int|
                0 <= a < b < order@.len() ==> comes_before(kv, #[trigger] order@[a] as int, #[trigger] order@[b] as int),
        decreases n - i,
    {
        let mut k: usize = 0;
        while k < order.len() && !key_less(&keys[i], &keys[order[k]])
            invariant
                k <= order@.len() == i,
                i < n == keys@.len(),
                kv == keys@.map_values(|k: SortKey| key_of(k)),
                forall|a: int| 0 <= a < order@.len() ==> (#[trigger] order@[a]) < i,
                forall|a: int| 0 <= a < k ==> comes_before(kv, #[trigger] order@[a] as int, i as int),
            decreases order@.len() - k,
        {
            proof {
                let j = order@[k as int] as int;
                assert(kv[i as int] == key_of(keys@[i as int]));
                assert(kv[j] == key_of(keys@[j]));
                lemma_comes_before_total(kv, j, i as int);
            }
            k = k + 1;
        }
        let ghost old_order = order@;
        proof {
            if k < old_order.len() {
                let j = old_order[k as int] as int;
                assert(kv[i as int] == key_of(keys@[i as int]));
                assert(kv[j] == key_of(keys@[j]));
                assert(comes_before(kv, i as int, j));
            }
        }
        order.insert(k, i);
        proof {
            assert(order@ == old_order.insert(k as int, i));
            assert forall|a: int, b: int| 0 <= a < b < order@.len() implies comes_before(
                kv,
                #[trigger] order@[a] as int,
                #[trigger] order@[b] as int,
            ) by {
                if b < k {
                    assert(order@[a] == old_order[a] && order@[b] == old_order[b]);
                } else if b == k {
                    assert(order@[a] == old_order[a]);
                } else if a > k {
                    assert(order@[a] == old_order[a - 1] && order@[b] == old_order[b - 1]);
                } else if a == k {
                    assert(order@[b] == old_order[b - 1]);
                    let j0 = old_order[k as int] as int;
                    if b - 1 > k {
                        lemma_comes_before_transitive(kv, i as int, j0, old_order[b - 1] as int);
                    }
                } else {
                    assert(order@[a] == old_order[a] && order@[b] == old_order[b - 1]);
                }
            }
            assert forall|a: int, b: int| 0 <= a < b < order@.len() implies order@[a] != order@[b] by {
                if a < k && b < k {
                    assert(order@[a] == old_order[a] && order@[b] == old_order[b]);
                } else if a > k {
                    assert(order@[a] == old_order[a - 1] && order@[b] == old_order[b - 1]);
                } else if a < k && b > k {
                    assert(order@[a] == old_order[a] && order@[b] == old_order[b - 1]);
                }
            }
        }
        i = i + 1;
    }
    order
}

} // verus!

verus! {

proof fn lemma_stable_order_distinct(keys: Seq<(bool, Seq<char>)>, order: Seq<usize>)
    requires
        is_stable_order(keys, order),
    ensures
        order.no_duplicates(),
{
    assert forall|a: int, b: int| 0 <= a < order.len() && 0 <= b < order.len() && a != b implies order[a]
        != order[b] by {
        let (x, y) = if a < b { (a, b) } else { (b, a) };
        assert(comes_before(keys, order[x] as int, order[y] as int));
        if order[a] == order[b] {
            lemma_comes_before_asymmetric(keys, order[x] as int, order[y] as int);
        }
    }
}

proof fn lemma_stable_order_covers(keys: Seq<(bool, Seq<char>)>, order: Seq<usize>)
    requires
        is_stable_order(keys, order),
    ensures
        forall|x: usize| x < keys.len() ==> order.contains(x),
{
    lemma_stable_order_distinct(keys, order);
    let n = keys.len() as int;
    let ints = order.map_values(|x: usize| x as int);
    assert(ints.no_duplicates()) by {
        assert forall|a: int, b: int| 0 <= a < ints.len() && 0 <= b < ints.len() && a != b implies ints[a]
            != ints[b] by {
            assert(order[a] != order[b]);
        }
    }
    ints.unique_seq_to_set();
    let range = vstd::set_lib::set_int_range(0, n);
    vstd::set_lib::lemma_int_range(0, n);
    assert(ints.to_set().subset_of(range)) by {
        assert forall|v: int| ints.to_set().contains(v) implies range.contains(v) by {
            let k = choose|k: int| 0 <= k < ints.len() && ints[k] == v;
            assert(order[k] < keys.len());
        }
    }
    vstd::set_lib::lemma_subset_equality(ints.to_set(), range);
    assert forall|x: usize| x < keys.len() implies order.contains(x) by {
        assert(range.contains(x as int));
        assert(ints.to_set().contains(x as int));
        let k = choose|k: int| 0 <= k < ints.len() && ints[k] == x as int;
        assert(order[k] == x);
    }
}

proof fn lemma_sorted_same_elements_equal(keys: Seq<(bool, Seq<char>)>, p: Seq<usize>, q: Seq<usize>)
    requires
        p.len() == q.len(),
        forall|a: int| 0 <= a < p.len() ==> (#[trigger] p[a]) < keys.len(),
        forall|a: int| 0 <= a < q.len() ==> (#[trigger] q[a]) < keys.len(),
        forall|a: int, b: int|
            0 <= a < b < p.len() ==> comes_before(keys, #[trigger] p[a] as int, #[trigger] p[b] as int),
        forall|a: int, b: int|
            0 <= a < b < q.len() ==> comes_before(keys, #[trigger] q[a] as int, #[trigger] q[b] as int),
        forall|x: usize| p.contains(x) <==> q.contains(x),
    ensures
        p == q,
    decreases p.len(),
{
    if p.len() > 0 {
        assert(p.contains(p[0]));
        assert(q.contains(q[0]));
        let j = choose|j: int| 0 <= j < q.len() && q[j] == p[0];
        let i = choose|i: int| 0 <= i < p.len() && p[i] == q[0];
        if p[0] != q[0] {
            assert(i != 0 && j != 0);
            assert(comes_before(keys, p[0] as int, p[i] as int));
            assert(comes_before(keys, q[0] as int, q[j] as int));
            lemma_comes_before_asymmetric(keys, p[0] as int, q[0] as int);
        }
        let p2 = p.drop_first();
        let q2 = q.drop_first();
        assert forall|x: usize| p2.contains(x) <==> q2.contains(x) by {
            if p2.contains(x) {
                let k = choose|k: int| 0 <= k < p2.len() && p2[k] == x;
                assert(p[k + 1] == x);
                assert(comes_before(keys, p[0] as int, p[k + 1] as int));
                if x == p[0] {
                    lemma_comes_before_asymmetric(keys, p[0] as int, x as int);
                }
                assert(q.contains(x));
                let m = choose|m: int| 0 <= m < q.len() && q[m] == x;
                assert(m != 0);
                assert(q2[m - 1] == x);
            }
            if q2.contains(x) {
                let k = choose|k: int| 0 <= k < q2.len() && q2[k] == x;
                assert(q[k + 1] == x);
                assert(comes_before(keys, q[0] as int, q[k + 1] as int));
                if x == q[0] {
                    lemma_comes_before_asymmetric(keys, q[0] as int, x as int);
                }
                assert(p.contains(x));
                let m = choose|m: int| 0 <= m < p.len() && p[m] == x;
                assert(m != 0);
                assert(p2[m - 1] == x);
            }
        }
        assert forall|a: int, b: int| 0 <= a < b < p2.len() implies comes_before(
            keys,
            #[trigger] p2[a] as int,
            #[trigger] p2[b] as int,
        ) by {
            assert(p2[a] == p[a + 1] && p2[b] == p[b + 1]);
        }
        assert forall|a: int, b: int| 0 <= a < b < q2.len() implies comes_before(
            keys,
            #[trigger] q2[a] as int,
            #[trigger] q2[b] as int,
        ) by {
            assert(q2[a] == q[a + 1] && q2[b] == q[b + 1]);
        }
        lemma_sorted_same_elements_equal(keys, p2, q2);
        assert(p =~= seq![p[0]] + p2);
        assert(q =~= seq![q[0]] + q2);
    } else {
        assert(p =~= q);
    }
}

/// The stable order of a list of keys is unique: a listing sorted this way
/// comes out the same every time.
pub proof fn lemma_stable_order_unique(keys: Seq<(bool, Seq<char>)>, p: Seq<usize>, q: Seq<usize>)
    requires
        is_stable_order(keys, p),
        is_stable_order(keys, q),
    ensures
        p == q,
{
    lemma_stable_order_covers(keys, p);
    lemma_stable_order_covers(keys, q);
    assert forall|x: usize| p.contains(x) <==> q.contains(x) by {
        if p.contains(x) {
            let k = choose|k: int| 0 <= k < p.len() && p[k] == x;
            assert(p[k] < keys.len());
        }
        if q.contains(x) {
            let k = choose|k: int| 0 <= k < q.len() && q[k] == x;
            assert(q[k] < keys.len());
        }
    }
    lemma_sorted_same_elements_equal(keys, p, q);
}

} // verus!
