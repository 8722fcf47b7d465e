//! Sparse tables as association vectors.
//!
//! Every ledger table in this crate is a `Vec` of key/value pairs with
//! pairwise-distinct keys; an absent key stands for the default value.
//! `al_lookup` is the mathematical reading of such a table, and the lemmas
//! here say how it moves under the only two mutations the ledgers use:
//! updating the value at a present key and pushing an absent key.

use vstd::prelude::*;
use crate::account::ActorId;

verus! {

/// The value stored under `k`, reading the table back to front.
pub open spec fn al_lookup<K, V>(s: Seq<(K, V)>, k: K) -> Option<V>
    decreases s.len(),
{
    if s.len() == 0 {
        None
    } else if s.last().0 == k {
        Some(s.last().1)
    } else {
        al_lookup(s.drop_last(), k)
    }
}

/// No two entries share a key.
pub open spec fn distinct_keys<K, V>(s: Seq<(K, V)>) -> bool {
    forall|i: int, j: int| 0 <= i < j < s.len() ==> s[i].0 != s[j].0
}

pub proof fn lemma_lookup_absent<K, V>(s: Seq<(K, V)>, k: K)
    requires
        forall|j: int| 0 <= j < s.len() ==> s[j].0 != k,
    ensures
        al_lookup(s, k) is None,
    decreases s.len(),
{
    if s.len() > 0 {
        lemma_lookup_absent(s.drop_last(), k);
    }
}

pub proof fn lemma_lookup_none_implies_absent<K, V>(s: Seq<(K, V)>, k: K)
    requires
        al_lookup(s, k) is None,
    ensures
        forall|j: int| 0 <= j < s.len() ==> s[j].0 != k,
    decreases s.len(),
{
    if s.len() > 0 {
        lemma_lookup_none_implies_absent(s.drop_last(), k);
        assert forall|j: int| 0 <= j < s.len() implies s[j].0 != k by {
            if j < s.len() - 1 {
                assert(s.drop_last()[j] == s[j]);
            }
        }
    }
}

pub proof fn lemma_lookup_present<K, V>(s: Seq<(K, V)>, k: K, i: int)
    requires
        0 <= i < s.len(),
        s[i].0 == k,
        forall|j: int| 0 <= j < s.len() && j != i ==> s[j].0 != k,
    ensures
        al_lookup(s, k) == Some(s[i].1),
    decreases s.len(),
{
    if i < s.len() - 1 {
        lemma_lookup_present(s.drop_last(), k, i);
    }
}

/// With distinct keys, the lookup of the key at index `i` yields that entry.
pub proof fn lemma_lookup_at<K, V>(s: Seq<(K, V)>, i: int)
    requires
        distinct_keys(s),
        0 <= i < s.len(),
    ensures
        al_lookup(s, s[i].0) == Some(s[i].1),
{
    assert(forall|j: int| 0 <= j < s.len() && j != i ==> s[j].0 != s[i].0);
    lemma_lookup_present(s, s[i].0, i);
}

/// Overwriting the value at a present key changes exactly that key's lookup.
pub proof fn lemma_lookup_after_update<K, V>(s: Seq<(K, V)>, i: int, v: V)
    requires
        distinct_keys(s),
        0 <= i < s.len(),
    ensures
        distinct_keys(s.update(i, (s[i].0, v))),
        forall|k2: K|
            #[trigger] al_lookup(s.update(i, (s[i].0, v)), k2) == (if k2 == s[i].0 {
                Some(v)
            } else {
                al_lookup(s, k2)
            }),
{
    let s2 = s.update(i, (s[i].0, v));
    assert(forall|j: int| 0 <= j < s.len() ==> s2[j].0 == s[j].0);
    assert(distinct_keys(s2));
    assert forall|k2: K|
        #[trigger] al_lookup(s2, k2) == (if k2 == s[i].0 {
            Some(v)
        } else {
            al_lookup(s, k2)
        }) by {
        if k2 == s[i].0 {
            lemma_lookup_at(s2, i);
        } else {
            if exists|j: int| 0 <= j < s.len() && s[j].0 == k2 {
                let j = choose|j: int| 0 <= j < s.len() && s[j].0 == k2;
                lemma_lookup_at(s, j);
                lemma_lookup_at(s2, j);
            } else {
                lemma_lookup_absent(s, k2);
                lemma_lookup_absent(s2, k2);
            }
        }
    }
}

/// Appending an absent key changes exactly that key's lookup.
pub proof fn lemma_lookup_after_push<K, V>(s: Seq<(K, V)>, k: K, v: V)
    requires
        distinct_keys(s),
        al_lookup(s, k) is None,
    ensures
        distinct_keys(s.push((k, v))),
        forall|k2: K|
            #[trigger] al_lookup(s.push((k, v)), k2) == (if k2 == k {
                Some(v)
            } else {
                al_lookup(s, k2)
            }),
{
    let s2 = s.push((k, v));
    lemma_lookup_none_implies_absent(s, k);
    assert(distinct_keys(s2));
    assert(s2.drop_last() =~= s);
    assert forall|k2: K|
        #[trigger] al_lookup(s2, k2) == (if k2 == k {
            Some(v)
        } else {
            al_lookup(s, k2)
        }) by {
        assert(s2.last() == (k, v));
    }
}

/// The sum of the stored values of a table with `u128` values.
pub open spec fn sum_vals<K>(s: Seq<(K, u128)>) -> int
    decreases s.len(),
{
    if s.len() == 0 {
        0
    } else {
        sum_vals(s.drop_last()) + s.last().1
    }
}

pub proof fn lemma_sum_vals_nonneg<K>(s: Seq<(K, u128)>)
    ensures
        sum_vals(s) >= 0,
    decreases s.len(),
{
    if s.len() > 0 {
        lemma_sum_vals_nonneg(s.drop_last());
    }
}

pub proof fn lemma_sum_vals_update<K>(s: Seq<(K, u128)>, i: int, v: u128)
    requires
        0 <= i < s.len(),
    ensures
        sum_vals(s.update(i, (s[i].0, v))) == sum_vals(s) - s[i].1 + v,
    decreases s.len(),
{
    let s2 = s.update(i, (s[i].0, v));
    if i == s.len() - 1 {
        assert(s2.drop_last() =~= s.drop_last());
    } else {
        assert(s2.drop_last() =~= s.drop_last().update(i, (s[i].0, v)));
        lemma_sum_vals_update(s.drop_last(), i, v);
    }
}

pub proof fn lemma_sum_vals_push<K>(s: Seq<(K, u128)>, p: (K, u128))
    ensures
        sum_vals(s.push(p)) == sum_vals(s) + p.1,
{
    assert(s.push(p).drop_last() =~= s);
}

/// Finds the index of `k` in a table keyed by accounts.
pub fn find_actor<V>(v: &Vec<(ActorId, V)>, k: ActorId) -> (r: Option<usize>)
    ensures
        match r {
            Some(i) => 0 <= (i as int) < v@.len() && v@[i as int].0 == k,
            None => forall|j: int| 0 <= j < v@.len() ==> v@[j].0 != k,
        },
{
    let mut i: usize = 0;
    while i < v.len()
        invariant
            i <= v.len(),
            forall|j: int| 0 <= j < i ==> v@[j].0 != k,
        decreases v.len() - i,
    {
        if v[i].0 == k {
            return Some(i);
        }
        i = i + 1;
    }
    None
}

/// Finds the index of `k` in a table keyed by token ids.
pub fn find_id<V>(v: &Vec<(u128, V)>, k: u128) -> (r: Option<usize>)
    ensures
        match r {
            Some(i) => 0 <= (i as int) < v@.len() && v@[i as int].0 == k,
            None => forall|j: int| 0 <= j < v@.len() ==> v@[j].0 != k,
        },
{
    let mut i: usize = 0;
    while i < v.len()
        invariant
            i <= v.len(),
            forall|j: int| 0 <= j < i ==> v@[j].0 != k,
        decreases v.len() - i,
    {
        if v[i].0 == k {
            return Some(i);
        }
        i = i + 1;
    }
    None
}

/// The value stored under the byte-string key `k` in an attribute table,
/// compared and returned at the level of byte sequences.
pub open spec fn attr_lookup(s: Seq<(Vec<u8>, Vec<u8>)>, k: Seq<u8>) -> Option<Seq<u8>>
    decreases s.len(),
{
    if s.len() == 0 {
        None
    } else if s.last().0@ == k {
        Some(s.last().1@)
    } else {
        attr_lookup(s.drop_last(), k)
    }
}

/// No two attribute entries share a byte-string key.
pub open spec fn attr_distinct(s: Seq<(Vec<u8>, Vec<u8>)>) -> bool {
    forall|i: int, j: int| 0 <= i < j < s.len() ==> s[i].0@ != s[j].0@
}

pub proof fn lemma_attr_absent(s: Seq<(Vec<u8>, Vec<u8>)>, k: Seq<u8>)
    requires
        forall|j: int| 0 <= j < s.len() ==> s[j].0@ != k,
    ensures
        attr_lookup(s, k) is None,
    decreases s.len(),
{
    if s.len() > 0 {
        lemma_attr_absent(s.drop_last(), k);
    }
}

pub proof fn lemma_attr_present(s: Seq<(Vec<u8>, Vec<u8>)>, k: Seq<u8>, i: int)
    requires
        0 <= i < s.len(),
        s[i].0@ == k,
        forall|j: int| 0 <= j < s.len() && j != i ==> s[j].0@ != k,
    ensures
        attr_lookup(s, k) == Some(s[i].1@),
    decreases s.len(),
{
    if i < s.len() - 1 {
        lemma_attr_present(s.drop_last(), k, i);
    }
}

/// With distinct keys, looking up the key at index `i` yields that entry.
pub proof fn lemma_attr_at(s: Seq<(Vec<u8>, Vec<u8>)>, i: int)
    requires
        attr_distinct(s),
        0 <= i < s.len(),
    ensures
        attr_lookup(s, s[i].0@) == Some(s[i].1@),
{
    assert(forall|j: int| 0 <= j < s.len() && j != i ==> s[j].0@ != s[i].0@);
    lemma_attr_present(s, s[i].0@, i);
}

/// Overwriting the value at a present key changes exactly that key's lookup.
pub proof fn lemma_attr_after_update(s: Seq<(Vec<u8>, Vec<u8>)>, i: int, v: Vec<u8>)
    requires
        attr_distinct(s),
        0 <= i < s.len(),
    ensures
        attr_distinct(s.update(i, (s[i].0, v))),
        forall|k2: Seq<u8>|
            #[trigger] attr_lookup(s.update(i, (s[i].0, v)), k2) == (if k2 == s[i].0@ {
                Some(v@)
            } else {
                attr_lookup(s, k2)
            }),
{
    let s2 = s.update(i, (s[i].0, v));
    assert(forall|j: int| 0 <= j < s.len() ==> s2[j].0 == s[j].0);
    assert(attr_distinct(s2));
    assert forall|k2: Seq<u8>|
        #[trigger] attr_lookup(s2, k2) == (if k2 == s[i].0@ {
            Some(v@)
        } else {
            attr_lookup(s, k2)
        }) by {
        if k2 == s[i].0@ {
            lemma_attr_at(s2, i);
        } else {
            if exists|j: int| 0 <= j < s.len() && s[j].0@ == k2 {
                let j = choose|j: int| 0 <= j < s.len() && s[j].0@ == k2;
                lemma_attr_at(s, j);
                lemma_attr_at(s2, j);
            } else {
                lemma_attr_absent(s, k2);
                lemma_attr_absent(s2, k2);
            }
        }
    }
}

/// Appending an absent key changes exactly that key's lookup.
pub proof fn lemma_attr_after_push(s: Seq<(Vec<u8>, Vec<u8>)>, k: Vec<u8>, v: Vec<u8>)
    requires
        attr_distinct(s),
        forall|j: int| 0 <= j < s.len() ==> s[j].0@ != k@,
    ensures
        attr_distinct(s.push((k, v))),
        forall|k2: Seq<u8>|
            #[trigger] attr_lookup(s.push((k, v)), k2) == (if k2 == k@ {
                Some(v@)
            } else {
                attr_lookup(s, k2)
            }),
{
    let s2 = s.push((k, v));
    assert(attr_distinct(s2));
    assert forall|k2: Seq<u8>|
        #[trigger] attr_lookup(s2, k2) == (if k2 == k@ {
            Some(v@)
        } else {
            attr_lookup(s, k2)
        }) by {
        assert(s2.drop_last() =~= s);
        assert(s2.last() == (k, v));
    }
}


/// The table's keys stand in strictly ascending order under `lt`.
pub open spec fn sorted_kv<K, V>(s: Seq<(K, V)>, lt: spec_fn(K, K) -> bool) -> bool {
    forall|i: int, j: int| 0 <= i < j < s.len() ==> lt(s[i].0, s[j].0)
}

/// Inserting an absent key at any position changes exactly that key's
/// lookup.
pub proof fn lemma_lookup_after_insert<K, V>(s: Seq<(K, V)>, p: int, k: K, v: V)
    requires
        distinct_keys(s),
        0 <= p <= s.len(),
        forall|j: int| 0 <= j < s.len() ==> s[j].0 != k,
    ensures
        distinct_keys(s.insert(p, (k, v))),
        forall|k2: K|
            #[trigger] al_lookup(s.insert(p, (k, v)), k2) == (if k2 == k {
                Some(v)
            } else {
                al_lookup(s, k2)
            }),
{
    let s2 = s.insert(p, (k, v));
    s.insert_ensures(p, (k, v));
    assert forall|i: int, j: int| 0 <= i < j < s2.len() implies s2[i].0 != s2[j].0 by {
        if i < p {
            assert(s2[i] == s[i]);
        } else if i > p {
            assert(s2[i] == s[i - 1]);
        }
        if j < p {
            assert(s2[j] == s[j]);
        } else if j > p {
            assert(s2[j] == s[j - 1]);
        }
    }
    assert forall|k2: K|
        #[trigger] al_lookup(s2, k2) == (if k2 == k {
            Some(v)
        } else {
            al_lookup(s, k2)
        }) by {
        if k2 == k {
            lemma_lookup_at(s2, p);
        } else {
            if exists|j: int| 0 <= j < s.len() && s[j].0 == k2 {
                let j = choose|j: int| 0 <= j < s.len() && s[j].0 == k2;
                lemma_lookup_at(s, j);
                if j < p {
                    assert(s2[j] == s[j]);
                    lemma_lookup_at(s2, j);
                } else {
                    assert(s2[j + 1] == s[j]);
                    lemma_lookup_at(s2, j + 1);
                }
            } else {
                lemma_lookup_absent(s, k2);
                assert forall|x: int| 0 <= x < s2.len() implies s2[x].0 != k2 by {
                    if x > p {
                        assert(s2[x] == s[x - 1]);
                    } else if x < p {
                        assert(s2[x] == s[x]);
                    }
                }
                lemma_lookup_absent(s2, k2);
            }
        }
    }
}

/// Inserting between the smaller and the larger keys keeps the table
/// sorted.
pub proof fn lemma_sorted_insert<K, V>(s: Seq<(K, V)>, p: int, x: (K, V), lt: spec_fn(K, K) -> bool)
    requires
        sorted_kv(s, lt),
        0 <= p <= s.len(),
        forall|a: int| 0 <= a < p ==> lt(s[a].0, x.0),
        forall|b: int| p <= b < s.len() ==> lt(x.0, s[b].0),
    ensures
        sorted_kv(s.insert(p, x), lt),
{
    let s2 = s.insert(p, x);
    s.insert_ensures(p, x);
    assert forall|i: int, j: int| 0 <= i < j < s2.len() implies lt(s2[i].0, s2[j].0) by {
        if i < p {
            assert(s2[i] == s[i]);
        } else if i > p {
            assert(s2[i] == s[i - 1]);
        }
        if j < p {
            assert(s2[j] == s[j]);
        } else if j > p {
            assert(s2[j] == s[j - 1]);
        }
    }
}

/// The strict lexicographic order on byte strings: a proper prefix comes
/// first, otherwise the first differing byte decides.
pub open spec fn bytes_lt(a: Seq<u8>, b: Seq<u8>) -> bool
    decreases a.len(),
{
    if b.len() == 0 {
        false
    } else if a.len() == 0 {
        true
    } else if a[0] < b[0] {
        true
    } else if a[0] > b[0] {
        false
    } else {
        bytes_lt(a.drop_first(), b.drop_first())
    }
}

/// Two distinct byte strings are ordered one way or the other.
pub proof fn lemma_bytes_lt_total(a: Seq<u8>, b: Seq<u8>)
    requires
        a != b,
    ensures
        bytes_lt(a, b) || bytes_lt(b, a),
    decreases a.len(),
{
    if a.len() == 0 {
        if b.len() == 0 {
            assert(a =~= b);
        }
    } else if b.len() == 0 {
    } else if a[0] == b[0] {
        if a.drop_first() == b.drop_first() {
            assert(a.drop_first().len() == b.drop_first().len());
            assert(a.len() == b.len());
            assert forall|x: int| 0 <= x < a.len() implies a[x] == b[x] by {
                if x > 0 {
                    assert(a.drop_first()[x - 1] == a[x]);
                    assert(b.drop_first()[x - 1] == b[x]);
                }
            }
            assert(a =~= b);
        }
        lemma_bytes_lt_total(a.drop_first(), b.drop_first());
    }
}

/// The lexicographic order is transitive.
pub proof fn lemma_bytes_lt_trans(a: Seq<u8>, b: Seq<u8>, c: Seq<u8>)
    requires
        bytes_lt(a, b),
        bytes_lt(b, c),
    ensures
        bytes_lt(a, c),
    decreases a.len(),
{
    if a.len() > 0 {
        if a[0] == b[0] && b[0] == c[0] {
            lemma_bytes_lt_trans(a.drop_first(), b.drop_first(), c.drop_first());
        }
    }
}

/// Whether `a` orders strictly before `b` lexicographically.
pub fn bytes_less(a: &Vec<u8>, b: &Vec<u8>) -> (r: bool)
    ensures
        r == bytes_lt(a@, b@),
{
    let mut i: usize = 0;
    proof {
        assert(a@.skip(0) =~= a@);
        assert(b@.skip(0) =~= b@);
    }
    while i < a.len() && i < b.len()
        invariant
            i <= a.len(),
            i <= b.len(),
            bytes_lt(a@, b@) == bytes_lt(a@.skip(i as int), b@.skip(i as int)),
        decreases a.len() - i,
    {
        if a[i] < b[i] {
            proof {
                assert(a@.skip(i as int)[0] == a@[i as int]);
                assert(b@.skip(i as int)[0] == b@[i as int]);
            }
            return true;
        }
        if a[i] > b[i] {
            proof {
                assert(a@.skip(i as int)[0] == a@[i as int]);
                assert(b@.skip(i as int)[0] == b@[i as int]);
            }
            return false;
        }
        proof {
            assert(a@.skip(i as int)[0] == a@[i as int]);
            assert(b@.skip(i as int)[0] == b@[i as int]);
            assert(a@.skip(i as int).drop_first() =~= a@.skip(i as int + 1));
            assert(b@.skip(i as int).drop_first() =~= b@.skip(i as int + 1));
        }
        i = i + 1;
    }
    proof {
        assert(a@.skip(i as int).len() == a@.len() - i);
        assert(b@.skip(i as int).len() == b@.len() - i);
    }
    a.len() < b.len()
}

/// Inserting an absent byte-string key at any position changes exactly
/// that key's lookup.
pub proof fn lemma_attr_after_insert(s: Seq<(Vec<u8>, Vec<u8>)>, p: int, k: Vec<u8>, v: Vec<u8>)
    requires
        attr_distinct(s),
        0 <= p <= s.len(),
        forall|j: int| 0 <= j < s.len() ==> s[j].0@ != k@,
    ensures
        attr_distinct(s.insert(p, (k, v))),
        forall|k2: Seq<u8>|
            #[trigger] attr_lookup(s.insert(p, (k, v)), k2) == (if k2 == k@ {
                Some(v@)
            } else {
                attr_lookup(s, k2)
            }),
{
    let s2 = s.insert(p, (k, v));
    s.insert_ensures(p, (k, v));
    assert forall|i: int, j: int| 0 <= i < j < s2.len() implies s2[i].0@ != s2[j].0@ by {
        if i < p {
            assert(s2[i] == s[i]);
        } else if i > p {
            assert(s2[i] == s[i - 1]);
        }
        if j < p {
            assert(s2[j] == s[j]);
        } else if j > p {
            assert(s2[j] == s[j - 1]);
        }
    }
    assert forall|k2: Seq<u8>|
        #[trigger] attr_lookup(s2, k2) == (if k2 == k@ {
            Some(v@)
        } else {
            attr_lookup(s, k2)
        }) by {
        if k2 == k@ {
            lemma_attr_at(s2, p);
        } else {
            if exists|j: int| 0 <= j < s.len() && s[j].0@ == k2 {
                let j = choose|j: int| 0 <= j < s.len() && s[j].0@ == k2;
                lemma_attr_at(s, j);
                if j < p {
                    assert(s2[j] == s[j]);
                    lemma_attr_at(s2, j);
                } else {
                    assert(s2[j + 1] == s[j]);
                    lemma_attr_at(s2, j + 1);
                }
            } else {
                lemma_attr_absent(s, k2);
                assert forall|x: int| 0 <= x < s2.len() implies s2[x].0@ != k2 by {
                    if x > p {
                        assert(s2[x] == s[x - 1]);
                    } else if x < p {
                        assert(s2[x] == s[x]);
                    }
                }
                lemma_attr_absent(s2, k2);
            }
        }
    }
}

/// Byte-string equality.
pub fn bytes_eq(a: &Vec<u8>, b: &Vec<u8>) -> (r: bool)
    ensures
        r == (a@ == b@),
{
    if a.len() != b.len() {
        return false;
    }
    let mut i: usize = 0;
    while i < a.len()
        invariant
            a@.len() == b@.len(),
            i <= a.len(),
            forall|j: int| 0 <= j < i ==> a@[j] == b@[j],
        decreases a.len() - i,
    {
        if a[i] != b[i] {
            return false;
        }
        i = i + 1;
    }
    proof {
        assert(a@ =~= b@);
    }
    true
}

/// Finds the index of the byte-string key `k`.
pub fn find_bytes<V>(v: &Vec<(Vec<u8>, V)>, k: &Vec<u8>) -> (r: Option<usize>)
    ensures
        match r {
            Some(i) => 0 <= (i as int) < v@.len() && v@[i as int].0@ == k@,
            None => forall|j: int| 0 <= j < v@.len() ==> v@[j].0@ != k@,
        },
{
    let mut i: usize = 0;
    while i < v.len()
        invariant
            i <= v.len(),
            forall|j: int| 0 <= j < i ==> v@[j].0@ != k@,
        decreases v.len() - i,
    {
        if bytes_eq(&v[i].0, k) {
            return Some(i);
        }
        i = i + 1;
    }
    None
}

/// Whether the account `k` is one of the listed accounts.
pub fn contains_actor(v: &Vec<ActorId>, k: ActorId) -> (r: bool)
    ensures
        r == v@.contains(k),
{
    let mut i: usize = 0;
    while i < v.len()
        invariant
            i <= v.len(),
            forall|j: int| 0 <= j < i ==> v@[j] != k,
        decreases v.len() - i,
    {
        if v[i] == k {
            return true;
        }
        i = i + 1;
    }
    false
}

} // verus!
