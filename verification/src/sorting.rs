//! Sorted, duplicate-free lists of texts, ordered character by character.
use crate::providers::verification::{text_order, VersionOrder};
use crate::text::{char_rows, chars_eq, copy_chars};
use vstd::prelude::*;

verus! {

/// Two texts are in `Equal` order exactly when they are the same.
pub proof fn lemma_text_order_equal(a: Seq<char>, b: Seq<char>)
    ensures
        (text_order(a, b) == VersionOrder::Equal) <==> (a == b),
    decreases a.len(),
{
    if a.len() == 0 && b.len() == 0 {
        assert(a =~= b);
    } else if a.len() > 0 && b.len() > 0 && a[0] == b[0] {
        lemma_text_order_equal(a.drop_first(), b.drop_first());
        if a.drop_first() == b.drop_first() {
            assert(a =~= seq![a[0]] + a.drop_first());
            assert(b =~= seq![b[0]] + b.drop_first());
        }
    } else if a == b {
        assert(a.len() == b.len());
    }
}

/// Swapping two texts swaps `Less` and `Greater`.
pub proof fn lemma_text_order_flip(a: Seq<char>, b: Seq<char>)
    ensures
        (text_order(a, b) == VersionOrder::Less) <==> (text_order(b, a) == VersionOrder::Greater),
        (text_order(a, b) == VersionOrder::Greater) <==> (text_order(b, a) == VersionOrder::Less),
    decreases a.len(),
{
    if a.len() > 0 && b.len() > 0 && a[0] == b[0] {
        lemma_text_order_flip(a.drop_first(), b.drop_first());
    }
}

/// `Less` is transitive.
pub proof fn lemma_text_order_trans(a: Seq<char>, b: Seq<char>, c: Seq<char>)
    requires
        text_order(a, b) == VersionOrder::Less,
        text_order(b, c) == VersionOrder::Less,
    ensures
        text_order(a, c) == VersionOrder::Less,
    decreases a.len(),
{
    if a.len() > 0 && b.len() > 0 && c.len() > 0 && a[0] == b[0] && b[0] == c[0] {
        lemma_text_order_trans(a.drop_first(), b.drop_first(), c.drop_first());
    }
}

/// A sequence with one more element contains what it contained and the new element.
pub proof fn lemma_push_contains<A>(s: Seq<A>, x: A, y: A)
    ensures
        s.push(x).contains(y) <==> (s.contains(y) || y == x),
{
    if s.push(x).contains(y) {
        let k = choose|k: int| 0 <= k < s.push(x).len() && s.push(x)[k] == y;
        if k < s.len() {
            assert(s[k] == y);
        }
    }
    if s.contains(y) {
        let k = choose|k: int| 0 <= k < s.len() && s[k] == y;
        assert(s.push(x)[k] == y);
    }
    if y == x {
        assert(s.push(x)[s.len() as int] == y);
    }
}

/// Two sequences one after the other contain what either contains.
pub proof fn lemma_concat_contains<A>(a: Seq<A>, b: Seq<A>, y: A)
    ensures
        (a + b).contains(y) <==> (a.contains(y) || b.contains(y)),
{
    if (a + b).contains(y) {
        let k = choose|k: int| 0 <= k < (a + b).len() && (a + b)[k] == y;
        if k < a.len() {
            assert(a[k] == y);
        } else {
            assert(b[k - a.len()] == y);
        }
    }
    if a.contains(y) {
        let k = choose|k: int| 0 <= k < a.len() && a[k] == y;
        assert((a + b)[k] == y);
    }
    if b.contains(y) {
        let k = choose|k: int| 0 <= k < b.len() && b[k] == y;
        assert((a + b)[a.len() + k] == y);
    }
}

/// Whether the texts are in strictly increasing order.
pub open spec fn strictly_sorted(s: Seq<Seq<char>>) -> bool {
    forall|i: int, j: int| 0 <= i < j < s.len() ==> text_order(s[i], s[j]) == VersionOrder::Less
}

/// Whether two lists hold the same texts, counting none twice.
pub open spec fn same_texts(a: Seq<Seq<char>>, b: Seq<Seq<char>>) -> bool {
    forall|x: Seq<char>| a.contains(x) <==> b.contains(x)
}

/// Inserts `x` into a strictly sorted list unless it is there already.
fn insert_text(v: &mut Vec<Vec<char>>, x: Vec<char>)
    requires
        strictly_sorted(char_rows(old(v)@)),
    ensures
        strictly_sorted(char_rows(final(v)@)),
        forall|y: Seq<char>|
            char_rows(final(v)@).contains(y) <==> (char_rows(old(v)@).contains(y) || y == x@),
{
    let ghost s = char_rows(v@);
    let mut j: usize = 0;
    while j < v.len() && crate::providers::verification::compare_chars(&v[j], &x) == VersionOrder::Less
        invariant
            s == char_rows(v@),
            j <= v@.len(),
            forall|i: int| 0 <= i < j ==> text_order(s[i], x@) == VersionOrder::Less,
        decreases v.len() - j,
    {
        assert(s[j as int] == v@[j as int]@);
        j = j + 1;
    }
    if j < v.len() && chars_eq(&v[j], &x) {
        proof {
            assert(s[j as int] == v@[j as int]@);
            assert(s.contains(x@));
        }
        return;
    }
    proof {
        if j < v@.len() {
            assert(s[j as int] == v@[j as int]@);
            lemma_text_order_equal(s[j as int], x@);
            lemma_text_order_flip(s[j as int], x@);
            assert(text_order(x@, s[j as int]) == VersionOrder::Less);
        }
    }
    let ghost xv = x@;
    v.insert(j, x);
    proof {
        let t = char_rows(v@);
        assert(t =~= s.insert(j as int, xv));
        assert forall|a: int, b: int| 0 <= a < b < t.len() implies text_order(t[a], t[b])
            == VersionOrder::Less by {
            if b < j {
            } else if b == j {
            } else if a < j {
                if b - 1 > j {
                    lemma_text_order_trans(xv, s[j as int], s[b - 1]);
                }
                lemma_text_order_trans(s[a], xv, s[b - 1]);
            } else if a == j {
                if b - 1 > j {
                    lemma_text_order_trans(xv, s[j as int], s[b - 1]);
                }
            } else {
            }
        }
        assert forall|y: Seq<char>| t.contains(y) <==> (s.contains(y) || y == xv) by {
            if t.contains(y) {
                let k = choose|k: int| 0 <= k < t.len() && t[k] == y;
                if k < j {
                    assert(s[k] == y);
                } else if k > j {
                    assert(s[k - 1] == y);
                }
            }
            if s.contains(y) {
                let k = choose|k: int| 0 <= k < s.len() && s[k] == y;
                if k < j {
                    assert(t[k] == y);
                } else {
                    assert(t[k + 1] == y);
                }
            }
            if y == xv {
                assert(t[j as int] == y);
            }
        }
    }
}

/// The texts of a list, sorted character by character, each once.
pub fn sorted_distinct(items: &Vec<Vec<char>>) -> (r: Vec<Vec<char>>)
    ensures
        strictly_sorted(char_rows(r@)),
        same_texts(char_rows(r@), char_rows(items@)),
{
    let mut out: Vec<Vec<char>> = Vec::new();
    let mut i: usize = 0;
    while i < items.len()
        invariant
            i <= items@.len(),
            strictly_sorted(char_rows(out@)),
            forall|y: Seq<char>|
                char_rows(out@).contains(y) <==> char_rows(items@).subrange(0, i as int).contains(y),
        decreases items.len() - i,
    {
        let ghost before = char_rows(out@);
        insert_text(&mut out, copy_chars(&items[i]));
        proof {
            let p = char_rows(items@).subrange(0, i + 1);
            let q = char_rows(items@).subrange(0, i as int);
            assert(p =~= q.push(items@[i as int]@));
            assert forall|y: Seq<char>| char_rows(out@).contains(y) <==> p.contains(y) by {
                if p.contains(y) {
                    let k = choose|k: int| 0 <= k < p.len() && p[k] == y;
                    if k < i {
                        assert(q[k] == y);
                    }
                }
                if q.contains(y) {
                    let k = choose|k: int| 0 <= k < q.len() && q[k] == y;
                    assert(p[k] == y);
                }
                if y == items@[i as int]@ {
                    assert(p[i as int] == y);
                }
            }
        }
        i = i + 1;
    }
    proof {
        assert(char_rows(items@).subrange(0, items@.len() as int) =~= char_rows(items@));
    }
    out
}


/// Whether `order` lists each index below `n` exactly once.
pub open spec fn is_permutation(order: Seq<int>, n: int) -> bool {
    &&& order.len() == n
    &&& forall|i: int| 0 <= i < order.len() ==> 0 <= #[trigger] order[i] < n
    &&& forall|i: int, j: int| 0 <= i < j < order.len() ==> order[i] != order[j]
}

/// Whether entry `a` comes before entry `b` when sorted by text, ties kept in index order.
pub open spec fn text_before(keys: Seq<Seq<char>>, a: int, b: int) -> bool {
    text_order(keys[a], keys[b]) == VersionOrder::Less || (keys[a] == keys[b] && a < b)
}

/// Whether `order` is the stable sort of the keys by text.
pub open spec fn stably_sorted_by_text(keys: Seq<Seq<char>>, order: Seq<int>) -> bool {
    &&& is_permutation(order, keys.len() as int)
    &&& forall|i: int, j: int| 0 <= i < j < order.len() ==> text_before(keys, order[i], order[j])
}

/// The indices of the keys in stable text order.
pub fn stable_order_by_text(keys: &Vec<Vec<char>>) -> (r: Vec<usize>)
    ensures
        stably_sorted_by_text(char_rows(keys@), r@.map_values(|i: usize| i as int)),
{
    let ghost ks = char_rows(keys@);
    let mut out: Vec<usize> = Vec::new();
    let mut x: usize = 0;
    while x < keys.len()
        invariant
            ks == char_rows(keys@),
            x <= keys@.len(),
            is_permutation(out@.map_values(|i: usize| i as int), x as int),
            forall|i: int| 0 <= i < out@.len() ==> (#[trigger] out@[i]) < x,
            forall|i: int, j: int|
                0 <= i < j < out@.len() ==> text_before(ks, out@[i] as int, out@[j] as int),
        decreases keys.len() - x,
    {
        let mut j: usize = 0;
        while j < out.len() && crate::providers::verification::compare_chars(&keys[out[j]], &keys[x])
            != VersionOrder::Greater
            invariant
                ks == char_rows(keys@),
                x < keys@.len(),
                j <= out@.len(),
                is_permutation(out@.map_values(|i: usize| i as int), x as int),
                forall|i: int| 0 <= i < out@.len() ==> (#[trigger] out@[i]) < x,
                forall|i: int, j: int|
                    0 <= i < j < out@.len() ==> text_before(ks, out@[i] as int, out@[j] as int),
                forall|i: int| 0 <= i < j ==> text_order(ks[out@[i] as int], ks[x as int]) != VersionOrder::Greater,
            decreases out.len() - j,
        {
            proof {
                assert(out@.map_values(|i: usize| i as int)[j as int] == out@[j as int] as int);
                assert(ks[out@[j as int] as int] == keys@[out@[j as int] as int]@);
                assert(ks[x as int] == keys@[x as int]@);
            }
            j = j + 1;
        }
        proof {
            if j < out@.len() {
                assert(out@.map_values(|i: usize| i as int)[j as int] == out@[j as int] as int);
                assert(ks[out@[j as int] as int] == keys@[out@[j as int] as int]@);
                assert(ks[x as int] == keys@[x as int]@);
            }
        }
        let ghost old_out = out@;
        out.insert(j, x);
        proof {
            let o = out@;
            assert(o =~= old_out.insert(j as int, x));
            let om = o.map_values(|i: usize| i as int);
            let oldm = old_out.map_values(|i: usize| i as int);
            assert forall|i: int| 0 <= i < om.len() implies 0 <= #[trigger] om[i] < x + 1 by {
                if i < j {
                    assert(om[i] == oldm[i]);
                } else if i > j {
                    assert(om[i] == oldm[i - 1]);
                }
            }
            assert forall|a: int, b: int| 0 <= a < b < om.len() implies om[a] != om[b] by {
                if a < j && b < j {
                    assert(om[a] == oldm[a] && om[b] == oldm[b]);
                } else if a < j && b == j {
                    assert(om[a] == oldm[a]);
                } else if a < j && b > j {
                    assert(om[a] == oldm[a] && om[b] == oldm[b - 1]);
                } else if a == j {
                    assert(om[b] == oldm[b - 1]);
                } else {
                    assert(om[a] == oldm[a - 1] && om[b] == oldm[b - 1]);
                }
            }
            assert forall|a: int, b: int| 0 <= a < b < o.len() implies text_before(ks, o[a] as int, o[b] as int) by {
                let xi = x as int;
                if b < j {
                    assert(o[a] == old_out[a] && o[b] == old_out[b]);
                } else if b == j {
                    assert(o[a] == old_out[a] && o[b] == x);
                    lemma_text_order_equal(ks[old_out[a] as int], ks[xi]);
                } else if a < j {
                    assert(o[a] == old_out[a] && o[b] == old_out[b - 1]);
                } else if a == j {
                    assert(o[a] == x && o[b] == old_out[b - 1]);
                    let kj = ks[old_out[j as int] as int];
                    let kb = ks[old_out[b - 1] as int];
                    lemma_text_order_flip(kj, ks[xi]);
                    if b - 1 > j {
                        assert(text_before(ks, old_out[j as int] as int, old_out[b - 1] as int));
                        if text_order(kj, kb) == VersionOrder::Less {
                            lemma_text_order_trans(ks[xi], kj, kb);
                        }
                    }
                } else {
                    assert(o[a] == old_out[a - 1] && o[b] == old_out[b - 1]);
                }
            }
        }
        x = x + 1;
    }
    out
}


/// Whether `order` is the stable sort of the keys by number.
pub open spec fn stably_sorted_by_key(keys: Seq<u64>, order: Seq<int>) -> bool {
    &&& is_permutation(order, keys.len() as int)
    &&& forall|i: int, j: int|
        0 <= i < j < order.len() ==> keys[order[i]] < keys[order[j]] || (keys[order[i]]
            == keys[order[j]] && order[i] < order[j])
}

/// The indices of the keys in stable numeric order.
pub fn stable_order_by_key(keys: &Vec<u64>) -> (r: Vec<usize>)
    ensures
        stably_sorted_by_key(keys@, r@.map_values(|i: usize| i as int)),
{
    let ghost ks = keys@;
    let mut out: Vec<usize> = Vec::new();
    let mut x: usize = 0;
    while x < keys.len()
        invariant
            ks == keys@,
            x <= keys@.len(),
            is_permutation(out@.map_values(|i: usize| i as int), x as int),
            forall|i: int| 0 <= i < out@.len() ==> (#[trigger] out@[i]) < x,
            forall|i: int, j: int|
                0 <= i < j < out@.len() ==> ks[out@[i] as int] < ks[out@[j] as int] || (ks[out@[i] as int]
                    == ks[out@[j] as int] && out@[i] < out@[j]),
        decreases keys.len() - x,
    {
        let mut j: usize = 0;
        while j < out.len() && keys[out[j]] <= keys[x]
            invariant
                ks == keys@,
                x < keys@.len(),
                j <= out@.len(),
                forall|i: int| 0 <= i < out@.len() ==> (#[trigger] out@[i]) < x,
                forall|i: int| 0 <= i < j ==> ks[out@[i] as int] <= ks[x as int],
            decreases out.len() - j,
        {
            j = j + 1;
        }
        let ghost old_out = out@;
        out.insert(j, x);
        proof {
            let o = out@;
            assert(o =~= old_out.insert(j as int, x));
            let om = o.map_values(|i: usize| i as int);
            let oldm = old_out.map_values(|i: usize| i as int);
            assert forall|i: int| 0 <= i < om.len() implies 0 <= #[trigger] om[i] < x + 1 by {
                if i < j {
                    assert(om[i] == oldm[i]);
                } else if i > j {
                    assert(om[i] == oldm[i - 1]);
                }
            }
            assert forall|a: int, b: int| 0 <= a < b < om.len() implies om[a] != om[b] by {
                if a < j && b < j {
                    assert(om[a] == oldm[a] && om[b] == oldm[b]);
                } else if a < j && b == j {
                    assert(om[a] == oldm[a]);
                } else if a < j && b > j {
                    assert(om[a] == oldm[a] && om[b] == oldm[b - 1]);
                } else if a == j {
                    assert(om[b] == oldm[b - 1]);
                } else {
                    assert(om[a] == oldm[a - 1] && om[b] == oldm[b - 1]);
                }
            }
            assert forall|a: int, b: int| 0 <= a < b < o.len() implies ks[o[a] as int] < ks[o[b] as int] || (
            ks[o[a] as int] == ks[o[b] as int] && o[a] < o[b]) by {
                if b < j {
                    assert(o[a] == old_out[a] && o[b] == old_out[b]);
                } else if b == j {
                    assert(o[a] == old_out[a] && o[b] == x);
                } else if a < j {
                    assert(o[a] == old_out[a] && o[b] == old_out[b - 1]);
                } else if a == j {
                    assert(o[a] == x && o[b] == old_out[b - 1]);
                    if b - 1 > j {
                        assert(ks[old_out[j as int] as int] <= ks[old_out[b - 1] as int]);
                    }
                } else {
                    assert(o[a] == old_out[a - 1] && o[b] == old_out[b - 1]);
                }
            }
        }
        x = x + 1;
    }
    out
}

/// The items in the given order: the `k`-th result is the item at `order[k]`.
pub fn arrange<T>(items: Vec<T>, order: &Vec<usize>) -> (r: Vec<T>)
    requires
        is_permutation(order@.map_values(|i: usize| i as int), items@.len() as int),
    ensures
        r@.len() == items@.len(),
        forall|k: int| 0 <= k < r@.len() ==> #[trigger] r@[k] == items@[order@[k] as int],
{
    let ghost orig = items@;
    let ghost om = order@.map_values(|i: usize| i as int);
    let mut items = items;
    let mut slots: Vec<Option<T>> = Vec::new();
    while items.len() > 0
        invariant
            slots@.len() + items@.len() == orig.len(),
            forall|k: int| 0 <= k < slots@.len() ==> #[trigger] slots@[k] == Some(orig[k]),
            forall|k: int| 0 <= k < items@.len() ==> #[trigger] items@[k] == orig[slots@.len() + k],
        decreases items@.len(),
    {
        let x = items.remove(0);
        slots.push(Some(x));
    }
    let n = slots.len();
    let mut out: Vec<T> = Vec::new();
    let mut k: usize = 0;
    while k < order.len()
        invariant
            n == orig.len(),
            slots@.len() == n,
            om == order@.map_values(|i: usize| i as int),
            is_permutation(om, n as int),
            k <= order@.len(),
            out@.len() == k,
            forall|m: int| 0 <= m < k ==> #[trigger] out@[m] == orig[order@[m] as int],
            forall|j: int|
                0 <= j < n ==> (#[trigger] slots@[j] == Some(orig[j])) || (exists|m: int|
                    0 <= m < k && om[m] == j),
            forall|m: int| k <= m < order@.len() ==> #[trigger] slots@[om[m]] == Some(orig[om[m]]),
        decreases order.len() - k,
    {
        let j = order[k];
        assert(om[k as int] == j as int);
        slots.push(None);
        let taken = slots.swap_remove(j);
        assert(taken == Some(orig[j as int]));
        match taken {
            Some(x) => {
                out.push(x);
            },
            None => {},
        }
        proof {
            assert forall|m: int| k + 1 <= m < order@.len() implies #[trigger] slots@[om[m]] == Some(
                orig[om[m]],
            ) by {
                assert(om[m] != om[k as int]);
            }
            assert forall|i: int|
                0 <= i < n implies (#[trigger] slots@[i] == Some(orig[i])) || (exists|m: int|
                    0 <= m < k + 1 && om[m] == i) by {
                if i == j as int {
                    assert(om[k as int] == i);
                }
            }
        }
        k = k + 1;
    }
    out
}

} // verus!
