//! Ascending enumeration of the ids that key a map.

use vstd::prelude::*;
use std::collections::HashMap;
use vstd::std_specs::iter::IteratorSpec;

verus! {

broadcast use vstd::std_specs::hash::group_hash_axioms;

pub open spec fn strictly_increasing(s: Seq<u64>) -> bool {
    forall|i: int, j: int| 0 <= i < j < s.len() ==> s[i] < s[j]
}

/// The members of `d` in ascending order.
pub open spec fn ascending(d: Set<u64>) -> Seq<u64> {
    choose|s: Seq<u64>| strictly_increasing(s) && s.to_set() == d
}

/// Two ascending sequences with the same members are equal.
pub proof fn lemma_ascending_unique(a: Seq<u64>, b: Seq<u64>)
    requires
        strictly_increasing(a),
        strictly_increasing(b),
        a.to_set() == b.to_set(),
    ensures
        a == b,
    decreases a.len(),
{
    if a.len() == 0 {
        if b.len() > 0 {
            assert(b.to_set().contains(b[0]));
        }
        assert(a =~= b);
    } else {
        assert(a.to_set().contains(a[0]));
        assert(b.to_set().contains(a[0]));
        assert(b.len() > 0);
        assert(b.to_set().contains(b[0]));
        assert(a.to_set().contains(b[0]));
        let i = choose|i: int| 0 <= i < a.len() && a[i] == b[0];
        let j = choose|j: int| 0 <= j < b.len() && b[j] == a[0];
        assert(a[0] <= a[i]);
        assert(b[0] <= b[j]);
        assert(a[0] == b[0]);
        let a1 = a.drop_first();
        let b1 = b.drop_first();
        assert forall|x: u64| a1.to_set().contains(x) implies b1.to_set().contains(x) by {
            let k = choose|k: int| 0 <= k < a1.len() && a1[k] == x;
            assert(a[k + 1] == x);
            assert(a.to_set().contains(x));
            let m = choose|m: int| 0 <= m < b.len() && b[m] == x;
            assert(m != 0);
            assert(b1[m - 1] == x);
        }
        assert forall|x: u64| b1.to_set().contains(x) implies a1.to_set().contains(x) by {
            let k = choose|k: int| 0 <= k < b1.len() && b1[k] == x;
            assert(b[k + 1] == x);
            assert(b.to_set().contains(x));
            let m = choose|m: int| 0 <= m < a.len() && a[m] == x;
            assert(m != 0);
            assert(a1[m - 1] == x);
        }
        assert(a1.to_set() =~= b1.to_set());
        lemma_ascending_unique(a1, b1);
        assert(a.len() == b.len());
        assert forall|i: int| 0 <= i < a.len() implies a[i] == b[i] by {
            if i > 0 {
                assert(a1[i - 1] == b1[i - 1]);
            }
        }
        assert(a =~= b);
    }
}

/// An ascending sequence is the ascending enumeration of its members.
pub proof fn lemma_is_ascending(s: Seq<u64>)
    requires
        strictly_increasing(s),
    ensures
        ascending(s.to_set()) == s,
{
    let d = s.to_set();
    assert(strictly_increasing(s) && s.to_set() == d);
    let t = ascending(d);
    lemma_ascending_unique(t, s);
}

/// A finite nonempty set of ids has a largest member.
pub proof fn lemma_has_max(d: Set<u64>) -> (m: u64)
    requires
        d.finite(),
        d.len() > 0,
    ensures
        d.contains(m),
        forall|x: u64| #[trigger] d.contains(x) ==> x <= m,
    decreases d.len(),
{
    let x = d.choose();
    let rest = d.remove(x);
    if rest.len() == 0 {
        assert forall|y: u64| #[trigger] d.contains(y) implies y <= x by {
            if y != x {
                assert(rest.contains(y));
            }
        }
        x
    } else {
        let m0 = lemma_has_max(rest);
        let m = if m0 < x { x } else { m0 };
        assert forall|y: u64| #[trigger] d.contains(y) implies y <= m by {
            if y != x {
                assert(rest.contains(y));
            }
        }
        m
    }
}

/// Every finite set of ids has an ascending enumeration, as long as the set.
pub proof fn lemma_ascending_exists(d: Set<u64>)
    requires
        d.finite(),
    ensures
        strictly_increasing(ascending(d)),
        ascending(d).to_set() == d,
        ascending(d).len() == d.len(),
    decreases d.len(),
{
    let w: Seq<u64> = if d.len() == 0 {
        assert(Seq::<u64>::empty().to_set() =~= d);
        Seq::empty()
    } else {
        let m = lemma_has_max(d);
        let rest = d.remove(m);
        lemma_ascending_exists(rest);
        let r = ascending(rest);
        let w = r.push(m);
        assert forall|i: int, j: int| 0 <= i < j < w.len() implies w[i] < w[j] by {
            if j == w.len() - 1 {
                assert(r.to_set().contains(r[i]));
                assert(d.contains(r[i]));
            }
        }
        assert forall|x: u64| w.to_set().contains(x) <==> d.contains(x) by {
            if d.contains(x) {
                if x == m {
                    assert(w[r.len() as int] == x);
                    assert(w.contains(x));
                } else {
                    assert(rest.contains(x));
                    assert(r.to_set().contains(x));
                    assert(r.contains(x));
                    let k = choose|k: int| 0 <= k < r.len() && r[k] == x;
                    assert(w[k] == x);
                    assert(w.contains(x));
                }
            }
            if w.to_set().contains(x) {
                assert(w.contains(x));
                let k = choose|k: int| 0 <= k < w.len() && w[k] == x;
                if k < r.len() {
                    assert(r[k] == x);
                    assert(r.contains(x));
                    assert(r.to_set().contains(x));
                    assert(rest.contains(x));
                }
            }
        }
        assert(w.to_set() =~= d);
        w
    };
    assert(strictly_increasing(w) && w.to_set() == d);
    let a = ascending(d);
    lemma_ascending_unique(a, w);
}

/// The keys of `m` in ascending order.
pub fn sorted_keys<V>(m: &HashMap<u64, V>) -> (r: Vec<u64>)
    ensures
        r@ == ascending(m@.dom()),
        strictly_increasing(r@),
        r@.to_set() == m@.dom(),
{
    let mut r: Vec<u64> = Vec::new();
    let ghost keys_seq = vstd::std_specs::hash::spec_keys_iter(m).remaining().unref();
    proof {
        vstd::std_specs::hash::axiom_spec_keys_iter(m);
    }
    for k in it: m.keys()
        invariant
            it.seq().unref() == keys_seq,
            keys_seq.to_set() == m@.dom(),
            keys_seq.no_duplicates(),
            strictly_increasing(r@),
            r@.to_set() == keys_seq.take(it.index()).to_set(),
    {
        let k = *k;
        let ghost before = r@;
        let ghost idx = it.index();
        assert(keys_seq[idx] == k);
        // `k` is not yet among the collected keys.
        assert(!before.to_set().contains(k)) by {
            if before.to_set().contains(k) {
                assert(keys_seq.take(idx).to_set().contains(k));
                let j = choose|j: int| 0 <= j < idx && keys_seq.take(idx)[j] == k;
                assert(keys_seq[j] == keys_seq[idx]);
            }
        }
        let mut p: usize = 0;
        while p < r.len() && r[p] < k
            invariant
                r@ == before,
                p <= r.len(),
                forall|q: int| 0 <= q < p ==> r@[q] < k,
            decreases r.len() - p,
        {
            p = p + 1;
        }
        proof {
            if p < r.len() {
                assert(r@[p as int] != k) by {
                    assert(before.to_set().contains(before[p as int]));
                }
            }
        }
        r.insert(p, k);
        proof {
            assert forall|i: int, j: int| 0 <= i < j < r@.len() implies r@[i] < r@[j] by {
                if j < p {
                } else if j == p {
                } else if i < p {
                    assert(r@[j] == before[j - 1]);
                    if p < before.len() {
                        assert(before[p as int] > k);
                        assert(before[p as int] <= before[j - 1]);
                    }
                } else if i == p {
                    assert(r@[j] == before[j - 1]);
                    assert(before[p as int] > k || before[p as int] == k);
                    assert(before[p as int] <= before[j - 1]);
                } else {
                    assert(r@[i] == before[i - 1]);
                    assert(r@[j] == before[j - 1]);
                }
            }
            assert(keys_seq.take(idx + 1) =~= keys_seq.take(idx).push(k));
            assert forall|x: u64| r@.to_set().contains(x) <==> keys_seq.take(idx + 1).to_set().contains(x) by {
                if r@.to_set().contains(x) {
                    let q = choose|q: int| 0 <= q < r@.len() && r@[q] == x;
                    if q < p {
                        assert(before[q] == x);
                        assert(before.to_set().contains(x));
                    } else if q > p {
                        assert(before[q - 1] == x);
                        assert(before.to_set().contains(x));
                    }
                    assert(keys_seq.take(idx).push(k).to_set().contains(x) || x == k);
                    if x == k {
                        assert(keys_seq.take(idx).push(k)[idx] == k);
                    } else {
                        assert(keys_seq.take(idx).to_set().contains(x));
                            let ks0 = keys_seq.take(idx);
                        let q2 = choose|q2: int| 0 <= q2 < ks0.len() && ks0[q2] == x;
                        assert(keys_seq.take(idx).push(k)[q2] == x);
                    }
                }
                let ks1 = keys_seq.take(idx + 1);
                if ks1.to_set().contains(x) {
                    let q = choose|q: int| 0 <= q < ks1.len() && ks1[q] == x;
                    if q == idx {
                        assert(r@[p as int] == x);
                    } else {
                        assert(keys_seq.take(idx)[q] == x);
                        assert(before.to_set().contains(x));
                        let q3 = choose|q3: int| 0 <= q3 < before.len() && before[q3] == x;
                        if q3 < p {
                            assert(r@[q3] == x);
                        } else {
                            assert(r@[q3 + 1] == x);
                        }
                    }
                }
            }
            assert(r@.to_set() =~= keys_seq.take(idx + 1).to_set());
        }
    }
    proof {
        assert(keys_seq.take(keys_seq.len() as int) =~= keys_seq);
        lemma_is_ascending(r@);
    }
    r
}

} // verus!
