//! Ordering rows by a text key, newest (greatest) first.
//!
//! Text keys compare as SQL's binary collation does: character by character
//! by code point, a proper prefix before the longer text. Rows with equal
//! keys keep the order in which they were stored.

use vstd::prelude::*;

verus! {

/// `a` sorts strictly before `b`.
pub open spec fn text_lt(a: Seq<char>, b: Seq<char>) -> bool
    decreases a.len(),
{
    if a.len() == 0 {
        b.len() > 0
    } else if b.len() == 0 {
        false
    } else if a[0] < b[0] {
        true
    } else if a[0] == b[0] {
        text_lt(a.drop_first(), b.drop_first())
    } else {
        false
    }
}

/// No text sorts before itself.
pub proof fn lemma_text_lt_irreflexive(a: Seq<char>)
    ensures
        !text_lt(a, a),
    decreases a.len(),
{
    if a.len() > 0 {
        lemma_text_lt_irreflexive(a.drop_first());
    }
}

/// Of two different texts, one sorts before the other.
pub proof fn lemma_text_lt_total(a: Seq<char>, b: Seq<char>)
    ensures
        a == b || text_lt(a, b) || text_lt(b, a),
    decreases a.len(),
{
    if a.len() > 0 && b.len() > 0 && a[0] == b[0] {
        lemma_text_lt_total(a.drop_first(), b.drop_first());
        if a.drop_first() == b.drop_first() {
            assert(a =~= seq![a[0]] + a.drop_first());
            assert(b =~= seq![b[0]] + b.drop_first());
        }
    } else if a.len() == 0 && b.len() == 0 {
        assert(a =~= b);
    }
}

/// Sorting before is transitive.
pub proof fn lemma_text_lt_transitive(a: Seq<char>, b: Seq<char>, c: Seq<char>)
    requires
        text_lt(a, b),
        text_lt(b, c),
    ensures
        text_lt(a, c),
    decreases a.len(),
{
    if a.len() > 0 && b.len() > 0 && c.len() > 0 && a[0] == b[0] && b[0] == c[0] {
        lemma_text_lt_transitive(a.drop_first(), b.drop_first(), c.drop_first());
    }
}

/// Whether `a` sorts strictly before `b`.
pub fn chars_lt(a: &[char], b: &[char]) -> (res: bool)
    ensures
        res == text_lt(a@, b@),
{
    let n = a.len();
    let m = b.len();
    let mut i: usize = 0;
    proof {
        assert(a@.subrange(0, n as int) =~= a@);
        assert(b@.subrange(0, m as int) =~= b@);
    }
    while i < n && i < m && a[i] == b[i]
        invariant
            n == a@.len(),
            m == b@.len(),
            i <= n,
            i <= m,
            text_lt(a@, b@) == text_lt(a@.subrange(i as int, n as int), b@.subrange(i as int, m as int)),
        decreases n - i,
    {
        proof {
            assert(a@.subrange(i as int, n as int).drop_first() =~= a@.subrange(i + 1, n as int));
            assert(b@.subrange(i as int, m as int).drop_first() =~= b@.subrange(i + 1, m as int));
        }
        i = i + 1;
    }
    if i == n {
        i < m
    } else if i == m {
        false
    } else {
        a[i] < b[i]
    }
}

/// Where a row with key `k` goes among rows already in order: before the
/// first row whose key sorts strictly before `k` (so after rows with an
/// equal key).
pub open spec fn insert_pos(order: Seq<int>, keys: Seq<Seq<char>>, k: Seq<char>) -> int
    decreases order.len(),
{
    if order.len() == 0 {
        0
    } else if text_lt(keys[order[0]], k) {
        0
    } else {
        1 + insert_pos(order.drop_first(), keys, k)
    }
}

/// The first `n` rows' indices, greatest key first; rows with equal keys
/// keep their stored order.
pub open spec fn desc_order(keys: Seq<Seq<char>>, n: nat) -> Seq<int>
    decreases n,
{
    if n == 0 {
        Seq::empty()
    } else {
        let o = desc_order(keys, (n - 1) as nat);
        o.insert(insert_pos(o, keys, keys[n - 1]), n - 1)
    }
}

proof fn lemma_insert_pos_bounds(order: Seq<int>, keys: Seq<Seq<char>>, k: Seq<char>)
    ensures
        0 <= insert_pos(order, keys, k) <= order.len(),
        forall|j: int| 0 <= j < insert_pos(order, keys, k) ==> !text_lt(keys[order[j]], k),
        insert_pos(order, keys, k) < order.len() ==> text_lt(
            keys[order[insert_pos(order, keys, k)]],
            k,
        ),
    decreases order.len(),
{
    if order.len() > 0 && !text_lt(keys[order[0]], k) {
        lemma_insert_pos_bounds(order.drop_first(), keys, k);
        let p = insert_pos(order, keys, k);
        assert forall|j: int| 0 <= j < p implies !text_lt(keys[order[j]], k) by {
            if j > 0 {
                assert(order.drop_first()[j - 1] == order[j]);
            }
        }
    }
}

/// The order holds each of the first `n` indices exactly once, greatest
/// key first.
pub open spec fn is_desc_order(o: Seq<int>, keys: Seq<Seq<char>>, n: nat) -> bool {
    &&& o.len() == n
    &&& forall|i: int| 0 <= i < o.len() ==> 0 <= #[trigger] o[i] < n
    &&& forall|i: int, j: int| 0 <= i < j < o.len() ==> o[i] != o[j]
    &&& forall|i: int, j: int|
        0 <= i < j < o.len() ==> !text_lt(#[trigger] keys[o[i]], #[trigger] keys[o[j]])
}

/// `desc_order` lists every row once, greatest key first.
pub proof fn lemma_desc_order(keys: Seq<Seq<char>>, n: nat)
    requires
        n <= keys.len(),
    ensures
        is_desc_order(desc_order(keys, n), keys, n),
    decreases n,
{
    if n > 0 {
        let o = desc_order(keys, (n - 1) as nat);
        lemma_desc_order(keys, (n - 1) as nat);
        let k = keys[n - 1];
        let p = insert_pos(o, keys, k);
        lemma_insert_pos_bounds(o, keys, k);
        let r = o.insert(p, n - 1);
        assert(r == desc_order(keys, n));
        assert forall|i: int| 0 <= i < r.len() implies 0 <= #[trigger] r[i] < n by {
            if i < p {
                assert(r[i] == o[i]);
            } else if i > p {
                assert(r[i] == o[i - 1]);
            }
        }
        assert forall|i: int, j: int| 0 <= i < j < r.len() implies r[i] != r[j] by {
            if i < p && j < p {
            } else if i < p && j == p {
                assert(o[i] < n - 1);
            } else if i < p && j > p {
                assert(r[j] == o[j - 1]);
            } else if i == p {
                assert(r[j] == o[j - 1]);
                assert(o[j - 1] < n - 1);
            } else {
                assert(r[i] == o[i - 1]);
                assert(r[j] == o[j - 1]);
            }
        }
        assert forall|i: int, j: int| 0 <= i < j < r.len() implies !text_lt(
            #[trigger] keys[r[i]],
            #[trigger] keys[r[j]],
        ) by {
            if j < p {
                assert(r[i] == o[i] && r[j] == o[j]);
            } else if j == p {
                assert(r[i] == o[i]);
            } else if i < p {
                // j > p: keys[r[j]] <= keys[o[p]] < k <= keys[r[i]]
                assert(r[i] == o[i] && r[j] == o[j - 1]);
                assert(!text_lt(keys[o[i]], k));
                if text_lt(keys[o[i]], keys[o[j - 1]]) {
                    if p < j - 1 {
                        assert(!text_lt(keys[o[p]], keys[o[j - 1]]));
                        lemma_text_lt_total(keys[o[p]], keys[o[j - 1]]);
                        if keys[o[p]] == keys[o[j - 1]] {
                        } else {
                            lemma_text_lt_transitive(keys[o[j - 1]], keys[o[p]], k);
                        }
                    }
                    lemma_text_lt_total(keys[o[j - 1]], k);
                    if keys[o[j - 1]] == k {
                    } else if text_lt(keys[o[j - 1]], k) {
                        lemma_text_lt_transitive(keys[o[i]], keys[o[j - 1]], k);
                    } else {
                        lemma_text_lt_transitive(keys[o[i]], keys[o[j - 1]], k);
                    }
                }
            } else if i == p {
                assert(r[j] == o[j - 1]);
                // keys[o[j-1]] <= keys[o[p]] < k
                if text_lt(k, keys[o[j - 1]]) {
                    if p < j - 1 {
                        assert(!text_lt(keys[o[p]], keys[o[j - 1]]));
                        lemma_text_lt_total(keys[o[p]], keys[o[j - 1]]);
                        if keys[o[p]] == keys[o[j - 1]] {
                            lemma_text_lt_irreflexive(k);
                            lemma_text_lt_transitive(k, keys[o[p]], k);
                        } else {
                            lemma_text_lt_transitive(keys[o[j - 1]], keys[o[p]], k);
                            lemma_text_lt_transitive(k, keys[o[j - 1]], k);
                            lemma_text_lt_irreflexive(k);
                        }
                    } else {
                        lemma_text_lt_transitive(k, keys[o[p]], k);
                        lemma_text_lt_irreflexive(k);
                    }
                }
            } else {
                assert(r[i] == o[i - 1] && r[j] == o[j - 1]);
            }
        }
    }
}

/// The views of a sequence of character vectors.
pub open spec fn char_vec_views(keys: Seq<Vec<char>>) -> Seq<Seq<char>> {
    keys.map_values(|k: Vec<char>| k@)
}

/// A sequence of indices as integers.
pub open spec fn as_ints(v: Seq<usize>) -> Seq<int> {
    v.map_values(|i: usize| i as int)
}

/// The indices `0..n` of rows with the given keys, greatest key first,
/// rows with equal keys in stored order.
pub fn order_desc(keys: &Vec<Vec<char>>) -> (res: Vec<usize>)
    ensures
        as_ints(res@) == desc_order(char_vec_views(keys@), keys@.len()),
{
    let ghost kv = char_vec_views(keys@);
    let mut order: Vec<usize> = Vec::new();
    let n = keys.len();
    for m in 0..n
        invariant
            n == keys@.len(),
            kv == char_vec_views(keys@),
            as_ints(order@) == desc_order(kv, m as nat),
            forall|i: int| 0 <= i < order@.len() ==> order@[i] < m,
    {
        let ghost o = desc_order(kv, m as nat);
        let key = &keys[m];
        let mut p: usize = 0;
        proof {
            assert(o.subrange(0, o.len() as int) =~= o);
        }
        while p < order.len() && !chars_lt(keys[order[p]].as_slice(), key.as_slice())
            invariant
                n == keys@.len(),
                m < n,
                kv == char_vec_views(keys@),
                o == desc_order(kv, m as nat),
                as_ints(order@) == o,
                forall|i: int| 0 <= i < order@.len() ==> order@[i] < m,
                key@ == kv[m as int],
                p <= order@.len(),
                insert_pos(o, kv, kv[m as int]) == p + insert_pos(o.subrange(p as int, o.len() as int), kv, kv[m as int]),
            decreases order@.len() - p,
        {
            proof {
                let rest = o.subrange(p as int, o.len() as int);
                assert(rest[0] == order@[p as int] as int);
                assert(rest.drop_first() =~= o.subrange(p + 1, o.len() as int));
            }
            p = p + 1;
        }
        proof {
            let rest = o.subrange(p as int, o.len() as int);
            if p < order@.len() {
                assert(rest[0] == order@[p as int] as int);
            }
            assert(insert_pos(o, kv, kv[m as int]) == p);
        }
        order.insert(p, m);
        proof {
            assert(as_ints(order@) =~= o.insert(p as int, m as int));
        }
    }
    order
}

} // verus!
