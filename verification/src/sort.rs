//! A verified stable insertion sort of indices by composite keys: a row of
//! integers compared lexicographically, then a row of strings compared
//! lexicographically. Rankings, pruning and sorted listings use it.
use vstd::prelude::*;

use crate::text::{
    compare_vec, lemma_seq_lt_asym, lemma_seq_lt_total,
    lemma_seq_lt_trans, seq_lt,
};

verus! {

/// A sort key as plain values.
pub type KeySpec = (Seq<int>, Seq<Seq<char>>);

pub struct SortKey {
    pub nums: Vec<i128>,
    pub strs: Vec<Vec<char>>,
}

impl SortKey {
    pub open spec fn view(&self) -> KeySpec {
        (self.nums@.map_values(|n: i128| n as int), self.strs@.map_values(|s: Vec<char>| s@))
    }
}

pub open spec fn ints_lt(a: Seq<int>, b: Seq<int>) -> bool
    decreases a.len(),
{
    if a.len() == 0 {
        b.len() > 0
    } else if b.len() == 0 {
        false
    } else if a[0] != b[0] {
        a[0] < b[0]
    } else {
        ints_lt(a.drop_first(), b.drop_first())
    }
}

pub open spec fn strs_lt(a: Seq<Seq<char>>, b: Seq<Seq<char>>) -> bool
    decreases a.len(),
{
    if a.len() == 0 {
        b.len() > 0
    } else if b.len() == 0 {
        false
    } else if a[0] != b[0] {
        seq_lt(a[0], b[0])
    } else {
        strs_lt(a.drop_first(), b.drop_first())
    }
}

/// Strict order on keys: the integers first, then the strings.
pub open spec fn key_lt(a: KeySpec, b: KeySpec) -> bool {
    ints_lt(a.0, b.0) || (a.0 == b.0 && strs_lt(a.1, b.1))
}

pub open spec fn key_le(a: KeySpec, b: KeySpec) -> bool {
    a == b || key_lt(a, b)
}

/// `order` lists every index of `keys` exactly once.
pub open spec fn is_permutation(order: Seq<int>, n: int) -> bool {
    &&& order.len() == n
    &&& forall|k: int| 0 <= k < order.len() ==> 0 <= #[trigger] order[k] < n
    &&& forall|a: int, b: int| 0 <= a < b < order.len() ==> order[a] != order[b]
    &&& forall|j: int| 0 <= j < n ==> #[trigger] lists(order, j)
}

/// `j` occurs in `order`.
pub open spec fn lists(order: Seq<int>, j: int) -> bool {
    exists|k: int| 0 <= k < order.len() && #[trigger] order[k] == j
}

/// Indices with equal keys keep their relative order in `order`.
pub open spec fn is_stable(keys: Seq<KeySpec>, order: Seq<int>) -> bool {
    forall|a: int, b: int| 0 <= a < b < order.len() && keys[order[a]] == keys[order[b]] ==> order[a] < order[b]
}

/// The keys in `order` never decrease.
pub open spec fn is_sorted_by(keys: Seq<KeySpec>, order: Seq<int>) -> bool {
    forall|a: int, b: int| 0 <= a < b < order.len() ==> key_le(keys[order[a]], keys[order[b]])
}

// ---------------------------------------------------------------------------
// Order lemmas
// ---------------------------------------------------------------------------

proof fn lemma_ints_total(a: Seq<int>, b: Seq<int>)
    ensures
        a == b || ints_lt(a, b) || ints_lt(b, a),
        !(ints_lt(a, b) && ints_lt(b, a)),
        !ints_lt(a, a),
    decreases a.len(),
{
    if a.len() > 0 && b.len() > 0 && a[0] == b[0] {
        lemma_ints_total(a.drop_first(), b.drop_first());
        if a.drop_first() == b.drop_first() {
            assert(a =~= seq![a[0]] + a.drop_first());
            assert(b =~= seq![b[0]] + b.drop_first());
        }
    } else if a.len() == 0 && b.len() == 0 {
        assert(a =~= b);
    }
    if a.len() > 0 {
        lemma_ints_total(a.drop_first(), a.drop_first());
    }
}

proof fn lemma_ints_trans(a: Seq<int>, b: Seq<int>, c: Seq<int>)
    requires
        ints_lt(a, b),
        ints_lt(b, c),
    ensures
        ints_lt(a, c),
    decreases a.len(),
{
    if a.len() > 0 && b.len() > 0 && c.len() > 0 && a[0] == b[0] && b[0] == c[0] {
        lemma_ints_trans(a.drop_first(), b.drop_first(), c.drop_first());
    }
}

proof fn lemma_strs_total(a: Seq<Seq<char>>, b: Seq<Seq<char>>)
    ensures
        a == b || strs_lt(a, b) || strs_lt(b, a),
        !(strs_lt(a, b) && strs_lt(b, a)),
        !strs_lt(a, a),
    decreases a.len(),
{
    if a.len() > 0 && b.len() > 0 {
        lemma_seq_lt_total(a[0], b[0]);
        lemma_seq_lt_asym(a[0], b[0]);
    }
    if a.len() > 0 && b.len() > 0 && a[0] == b[0] {
        lemma_strs_total(a.drop_first(), b.drop_first());
        if a.drop_first() == b.drop_first() {
            assert(a =~= seq![a[0]] + a.drop_first());
            assert(b =~= seq![b[0]] + b.drop_first());
        }
    } else if a.len() == 0 && b.len() == 0 {
        assert(a =~= b);
    }
    if a.len() > 0 {
        lemma_strs_total(a.drop_first(), a.drop_first());
    }
}

proof fn lemma_strs_trans(a: Seq<Seq<char>>, b: Seq<Seq<char>>, c: Seq<Seq<char>>)
    requires
        strs_lt(a, b),
        strs_lt(b, c),
    ensures
        strs_lt(a, c),
    decreases a.len(),
{
    if a.len() > 0 && b.len() > 0 && c.len() > 0 {
        if a[0] != b[0] && b[0] != c[0] {
            lemma_seq_lt_trans(a[0], b[0], c[0]);
            if a[0] == c[0] {
                lemma_seq_lt_asym(a[0], b[0]);
            }
        } else if a[0] == b[0] && b[0] == c[0] {
            lemma_strs_trans(a.drop_first(), b.drop_first(), c.drop_first());
        }
    }
}

/// `key_lt` is a strict total order.
pub proof fn lemma_key_order(a: KeySpec, b: KeySpec)
    ensures
        a == b || key_lt(a, b) || key_lt(b, a),
        !(key_lt(a, b) && key_lt(b, a)),
        !key_lt(a, a),
{
    lemma_ints_total(a.0, b.0);
    lemma_strs_total(a.1, b.1);
    lemma_ints_total(a.0, a.0);
    lemma_strs_total(a.1, a.1);
}

pub proof fn lemma_key_trans(a: KeySpec, b: KeySpec, c: KeySpec)
    requires
        key_lt(a, b),
        key_lt(b, c),
    ensures
        key_lt(a, c),
{
    if ints_lt(a.0, b.0) && ints_lt(b.0, c.0) {
        lemma_ints_trans(a.0, b.0, c.0);
    } else if ints_lt(a.0, b.0) {
    } else if ints_lt(b.0, c.0) {
    } else {
        lemma_strs_trans(a.1, b.1, c.1);
    }
}

pub proof fn lemma_key_le_lt_trans(a: KeySpec, b: KeySpec, c: KeySpec)
    requires
        key_le(a, b),
        key_lt(b, c),
    ensures
        key_lt(a, c),
{
    if a != b {
        lemma_key_trans(a, b, c);
    }
}

pub proof fn lemma_key_le_trans(a: KeySpec, b: KeySpec, c: KeySpec)
    requires
        key_le(a, b),
        key_le(b, c),
    ensures
        key_le(a, c),
{
    if a != b && b != c {
        lemma_key_trans(a, b, c);
    }
}

// ---------------------------------------------------------------------------
// Executable comparison and sort
// ---------------------------------------------------------------------------

fn ints_less(a: &Vec<i128>, b: &Vec<i128>) -> (r: bool)
    ensures
        r == ints_lt(a@.map_values(|n: i128| n as int), b@.map_values(|n: i128| n as int)),
{
    let ghost sa = a@.map_values(|n: i128| n as int);
    let ghost sb = b@.map_values(|n: i128| n as int);
    let mut i: usize = 0;
    assert(sa.skip(0) =~= sa);
    assert(sb.skip(0) =~= sb);
    while i < a.len() && i < b.len() && a[i] == b[i]
        invariant
            i <= a.len(),
            i <= b.len(),
            sa == a@.map_values(|n: i128| n as int),
            sb == b@.map_values(|n: i128| n as int),
            ints_lt(sa, sb) == ints_lt(sa.skip(i as int), sb.skip(i as int)),
        decreases a.len() - i,
    {
        assert(sa.skip(i as int).drop_first() =~= sa.skip(i + 1));
        assert(sb.skip(i as int).drop_first() =~= sb.skip(i + 1));
        i = i + 1;
    }
    if i == a.len() {
        i < b.len()
    } else if i == b.len() {
        false
    } else {
        a[i] < b[i]
    }
}

fn strs_less(a: &Vec<Vec<char>>, b: &Vec<Vec<char>>) -> (r: bool)
    ensures
        r == strs_lt(a@.map_values(|s: Vec<char>| s@), b@.map_values(|s: Vec<char>| s@)),
{
    let ghost sa = a@.map_values(|s: Vec<char>| s@);
    let ghost sb = b@.map_values(|s: Vec<char>| s@);
    let mut i: usize = 0;
    assert(sa.skip(0) =~= sa);
    assert(sb.skip(0) =~= sb);
    while i < a.len() && i < b.len()
        invariant
            i <= a.len(),
            i <= b.len(),
            sa == a@.map_values(|s: Vec<char>| s@),
            sb == b@.map_values(|s: Vec<char>| s@),
            strs_lt(sa, sb) == strs_lt(sa.skip(i as int), sb.skip(i as int)),
        decreases a.len() - i,
    {
        let c = compare_vec(&a[i], &b[i]);
        if c != 0 {
            return c < 0;
        }
        assert(sa.skip(i as int).drop_first() =~= sa.skip(i + 1));
        assert(sb.skip(i as int).drop_first() =~= sb.skip(i + 1));
        i = i + 1;
    }
    if i == a.len() {
        i < b.len()
    } else {
        false
    }
}

/// Whether key `a` sorts strictly before key `b`.
pub fn key_less(a: &SortKey, b: &SortKey) -> (r: bool)
    ensures
        r == key_lt(a.view(), b.view()),
{
    if ints_less(&a.nums, &b.nums) {
        return true;
    }
    if ints_less(&b.nums, &a.nums) {
        proof {
            lemma_ints_total(a.view().0, b.view().0);
        }
        return false;
    }
    proof {
        lemma_ints_total(a.view().0, b.view().0);
    }
    strs_less(&a.strs, &b.strs)
}

/// The indices of `keys` in non-decreasing key order; indices with equal
/// keys keep their relative order.
pub fn sort_indices(keys: &Vec<SortKey>) -> (order: Vec<usize>)
    ensures
        is_permutation(order@.map_values(|i: usize| i as int), keys@.len() as int),
        is_sorted_by(keys@.map_values(|k: SortKey| k.view()), order@.map_values(|i: usize| i as int)),
        is_stable(keys@.map_values(|k: SortKey| k.view()), order@.map_values(|i: usize| i as int)),
{
    let ghost ks = keys@.map_values(|k: SortKey| k.view());
    let mut order: Vec<usize> = Vec::new();
    let mut i: usize = 0;
    while i < keys.len()
        invariant
            i <= keys.len(),
            ks == keys@.map_values(|k: SortKey| k.view()),
            is_permutation(order@.map_values(|x: usize| x as int), i as int),
            is_sorted_by(ks, order@.map_values(|x: usize| x as int)),
            is_stable(ks, order@.map_values(|x: usize| x as int)),
        decreases keys.len() - i,
    {
        let ghost ov = order@.map_values(|x: usize| x as int);
        assert forall|q: int| 0 <= q < order@.len() implies order@[q] < i by {
            assert(ov[q] == order@[q] as int);
        }
        // first position whose key is strictly greater than keys[i]
        let mut p: usize = 0;
        while p < order.len() && !key_less(&keys[i], &keys[order[p]])
            invariant
                p <= order.len(),
                i < keys.len(),
                ks == keys@.map_values(|k: SortKey| k.view()),
                ov == order@.map_values(|x: usize| x as int),
                is_permutation(ov, i as int),
                forall|q: int| 0 <= q < order@.len() ==> order@[q] < i,
                forall|q: int| 0 <= q < p ==> !key_lt(ks[i as int], ks[ov[q]]),
            decreases order.len() - p,
        {
            p = p + 1;
        }
        assert(forall|q: int| 0 <= q < ov.len() ==> ov[q] < i);
        order.insert(p, i);
        proof {
            let nv = order@.map_values(|x: usize| x as int);
            assert(nv =~= ov.insert(p as int, i as int));
            // permutation
            assert forall|j: int| 0 <= j < i + 1 implies #[trigger] lists(nv, j) by {
                if j == i {
                    assert(nv[p as int] == j);
                } else {
                    assert(lists(ov, j));
                    let k = choose|k: int| 0 <= k < ov.len() && #[trigger] ov[k] == j;
                    if k < p {
                        assert(nv[k] == j);
                    } else {
                        assert(nv[k + 1] == j);
                    }
                }
            }
            assert forall|a: int, b: int| 0 <= a < b < nv.len() implies nv[a] != nv[b] by {
                if a != p && b != p {
                    let a0 = if a < p { a } else { a - 1 };
                    let b0 = if b < p { b } else { b - 1 };
                    assert(nv[a] == ov[a0] && nv[b] == ov[b0]);
                }
            }
            // sortedness
            assert forall|a: int, b: int| 0 <= a < b < nv.len() implies key_le(ks[nv[a]], ks[nv[b]]) by {
                let ki = ks[i as int];
                if a == p {
                    // b > p: ov[b - 1] is at or after the first strictly greater key
                    let b0 = b - 1;
                    if b0 == p as int {
                        assert(key_lt(ki, ks[ov[b0]]));
                    } else {
                        assert(key_le(ks[ov[p as int]], ks[ov[b0]]));
                        lemma_key_le_lt_trans(ki, ki, ks[ov[p as int]]);
                        lemma_key_le_trans(ki, ks[ov[p as int]], ks[ov[b0]]);
                    }
                } else if b == p {
                    let a0 = a;
                    assert(!key_lt(ki, ks[ov[a0]]));
                    lemma_key_order(ki, ks[ov[a0]]);
                } else {
                    let a0 = if a < p { a } else { a - 1 };
                    let b0 = if b < p { b } else { b - 1 };
                    assert(nv[a] == ov[a0] && nv[b] == ov[b0]);
                }
            }
            // stability
            assert forall|a: int, b: int| 0 <= a < b < nv.len() && ks[nv[a]] == ks[nv[b]] implies nv[a] < nv[b] by {
                if a == p {
                    let b0 = b - 1;
                    assert(nv[a] == i as int && nv[b] == ov[b0]);
                    if b0 == p as int {
                        assert(key_lt(ks[i as int], ks[ov[b0]]));
                    } else {
                        assert(key_le(ks[ov[p as int]], ks[ov[b0]]));
                        assert(key_lt(ks[i as int], ks[ov[p as int]]));
                        if ks[ov[p as int]] != ks[ov[b0]] {
                            lemma_key_trans(ks[i as int], ks[ov[p as int]], ks[ov[b0]]);
                        }
                    }
                    lemma_key_order(ks[i as int], ks[ov[b0]]);
                } else if b == p {
                    assert(nv[a] == ov[a]);
                    assert(nv[b] == i as int);
                    assert(ov[a] < i);
                } else {
                    let a0 = if a < p { a } else { a - 1 };
                    let b0 = if b < p { b } else { b - 1 };
                    assert(nv[a] == ov[a0] && nv[b] == ov[b0]);
                }
            }
        }
        i = i + 1;
    }
    order
}

} // verus!
