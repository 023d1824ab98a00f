//! Small maps keyed by byte strings, kept as lists of entries; a new key is
//! inserted before the first key that is not smaller (in byte-wise
//! lexicographic order), so a list in key order stays in key order. A key
//! is found at its first entry.
use vstd::prelude::*;

verus! {

/// Index of the first occurrence of `k` in `keys`.
pub open spec fn find_in(keys: Seq<Seq<u8>>, k: Seq<u8>) -> Option<int>
    decreases keys.len(),
{
    if keys.len() == 0 {
        None
    } else {
        match find_in(keys.drop_last(), k) {
            Some(i) => Some(i),
            None => if keys.last() == k {
                Some(keys.len() - 1)
            } else {
                None
            },
        }
    }
}

/// What `find_in` finds in a prefix it finds in the whole sequence.
pub proof fn lemma_find_in_prefix(keys: Seq<Seq<u8>>, j: int, k: Seq<u8>)
    requires
        0 <= j <= keys.len(),
        find_in(keys.subrange(0, j), k) is Some,
    ensures
        find_in(keys, k) == find_in(keys.subrange(0, j), k),
    decreases keys.len(),
{
    if j == keys.len() {
        assert(keys.subrange(0, j) =~= keys);
    } else {
        assert(keys.drop_last().subrange(0, j) =~= keys.subrange(0, j));
        lemma_find_in_prefix(keys.drop_last(), j, k);
    }
}

/// A found index holds the key and lies in range.
pub proof fn lemma_find_in_found(keys: Seq<Seq<u8>>, k: Seq<u8>)
    ensures
        find_in(keys, k) matches Some(i) ==> 0 <= i < keys.len() && keys[i] == k,
        find_in(keys, k) is None ==> forall|i: int| 0 <= i < keys.len() ==> keys[i] != k,
    decreases keys.len(),
{
    if keys.len() > 0 {
        lemma_find_in_found(keys.drop_last(), k);
        if find_in(keys.drop_last(), k) is None {
            assert forall|i: int| 0 <= i < keys.len() - 1 implies keys[i] != k by {
                assert(keys.drop_last()[i] == keys[i]);
            }
        }
    }
}

/// `a` comes before `b` in byte-wise lexicographic order (a proper prefix
/// comes first).
pub open spec fn bytes_lt(a: Seq<u8>, b: Seq<u8>) -> bool
    decreases a.len(),
{
    if b.len() == 0 {
        false
    } else if a.len() == 0 {
        true
    } else if a[0] != b[0] {
        a[0] < b[0]
    } else {
        bytes_lt(a.drop_first(), b.drop_first())
    }
}

/// The keys are in strictly increasing byte-wise order (as in a map).
pub open spec fn sorted_keys(ks: Seq<Seq<u8>>) -> bool {
    forall|i: int, j: int| 0 <= i < j < ks.len() ==> bytes_lt(ks[i], ks[j])
}

/// How many of `keys` come before `k`: where `k` goes in a sorted list.
pub open spec fn count_less(keys: Seq<Seq<u8>>, k: Seq<u8>) -> nat
    decreases keys.len(),
{
    if keys.len() == 0 {
        0
    } else {
        count_less(keys.drop_last(), k) + if bytes_lt(keys.last(), k) {
            1nat
        } else {
            0nat
        }
    }
}

/// `count_less` never exceeds the number of keys.
pub proof fn lemma_count_less_len(keys: Seq<Seq<u8>>, k: Seq<u8>)
    ensures
        count_less(keys, k) <= keys.len(),
    decreases keys.len(),
{
    if keys.len() > 0 {
        lemma_count_less_len(keys.drop_last(), k);
    }
}

/// The first entry of `k` precedes every other entry of `k`.
pub proof fn lemma_find_in_first(keys: Seq<Seq<u8>>, k: Seq<u8>)
    ensures
        find_in(keys, k) matches Some(i) ==> forall|j: int| 0 <= j < i ==> keys[j] != k,
    decreases keys.len(),
{
    if keys.len() > 0 {
        lemma_find_in_first(keys.drop_last(), k);
        lemma_find_in_found(keys.drop_last(), k);
        if find_in(keys.drop_last(), k) is Some {
            let i = find_in(keys.drop_last(), k)->0;
            assert forall|j: int| 0 <= j < i implies keys[j] != k by {
                assert(keys.drop_last()[j] == keys[j]);
            }
        } else {
            assert forall|j: int| 0 <= j < keys.len() - 1 implies keys[j] != k by {
                assert(keys.drop_last()[j] == keys[j]);
            }
        }
    }
}

/// An index holding `k` with no earlier entry of `k` is what `find_in`
/// finds; with no entry of `k` at all, it finds nothing.
pub proof fn lemma_find_in_at(keys: Seq<Seq<u8>>, k: Seq<u8>, i: int)
    requires
        i == -1 ==> forall|j: int| 0 <= j < keys.len() ==> keys[j] != k,
        i != -1 ==> 0 <= i < keys.len() && keys[i] == k && forall|j: int| 0 <= j < i ==> keys[j] != k,
    ensures
        i == -1 ==> find_in(keys, k) is None,
        i != -1 ==> find_in(keys, k) == Some(i),
{
    lemma_find_in_found(keys, k);
    lemma_find_in_first(keys, k);
    if i != -1 {
        match find_in(keys, k) {
            Some(f) => {
                if f < i {
                    assert(keys[f] == k);
                } else if f > i {
                    assert(keys[i] != k);
                }
            },
            None => {
                assert(keys[i] != k);
            },
        }
    } else {
        match find_in(keys, k) {
            Some(f) => {
                assert(keys[f] == k);
            },
            None => {},
        }
    }
}

/// No byte string comes before itself.
pub proof fn lemma_lt_irreflexive(a: Seq<u8>)
    ensures
        !bytes_lt(a, a),
    decreases a.len(),
{
    if a.len() > 0 {
        lemma_lt_irreflexive(a.drop_first());
    }
}

/// The byte-wise order is transitive.
pub proof fn lemma_lt_transitive(a: Seq<u8>, b: Seq<u8>, c: Seq<u8>)
    requires
        bytes_lt(a, b),
        bytes_lt(b, c),
    ensures
        bytes_lt(a, c),
    decreases a.len(),
{
    if a.len() > 0 && b.len() > 0 && c.len() > 0 && a[0] == b[0] && b[0] == c[0] {
        lemma_lt_transitive(a.drop_first(), b.drop_first(), c.drop_first());
    }
}

/// Of two different byte strings, one comes before the other.
pub proof fn lemma_lt_total(a: Seq<u8>, b: Seq<u8>)
    requires
        a != b,
    ensures
        bytes_lt(a, b) || bytes_lt(b, a),
    decreases a.len(),
{
    if a.len() == 0 && b.len() == 0 {
        assert(a =~= b);
    } else if a.len() > 0 && b.len() > 0 && a[0] == b[0] {
        if a.drop_first() == b.drop_first() {
            assert(a =~= b) by {
                assert(a.len() == a.drop_first().len() + 1);
                assert(b.len() == b.drop_first().len() + 1);
                assert forall|i: int| 0 <= i < a.len() implies a[i] == b[i] by {
                    if i > 0 {
                        assert(a.drop_first()[i - 1] == a[i]);
                        assert(b.drop_first()[i - 1] == b[i]);
                    }
                }
            }
        } else {
            lemma_lt_total(a.drop_first(), b.drop_first());
        }
    }
}

/// In a list in key order, the keys before `k` are exactly the first
/// `count_less` of them.
pub proof fn lemma_count_less_sorted(keys: Seq<Seq<u8>>, k: Seq<u8>)
    requires
        sorted_keys(keys),
    ensures
        count_less(keys, k) <= keys.len(),
        forall|j: int| 0 <= j < count_less(keys, k) ==> bytes_lt(#[trigger] keys[j], k),
        forall|j: int| count_less(keys, k) <= j < keys.len() ==> !bytes_lt(#[trigger] keys[j], k),
    decreases keys.len(),
{
    lemma_count_less_len(keys, k);
    if keys.len() > 0 {
        let d = keys.drop_last();
        assert(sorted_keys(d)) by {
            assert forall|i: int, j: int| 0 <= i < j < d.len() implies bytes_lt(d[i], d[j]) by {
                assert(d[i] == keys[i] && d[j] == keys[j]);
            }
        }
        lemma_count_less_sorted(d, k);
        let n = keys.len() - 1;
        if bytes_lt(keys[n], k) {
            assert forall|j: int| 0 <= j < n implies bytes_lt(#[trigger] d[j], k) by {
                assert(bytes_lt(keys[j], keys[n]));
                lemma_lt_transitive(keys[j], keys[n], k);
            }
            assert(count_less(d, k) == n);
        }
        assert forall|j: int| 0 <= j < count_less(keys, k) implies bytes_lt(#[trigger] keys[j], k) by {
            if j < n {
                assert(d[j] == keys[j]);
            }
        }
        assert forall|j: int| count_less(keys, k) <= j < keys.len() implies !bytes_lt(#[trigger] keys[j], k) by {
            if j < n {
                assert(d[j] == keys[j]);
            }
        }
    }
}

/// The keys of a list of entries.
pub open spec fn keys_of<V>(s: Seq<(Vec<u8>, V)>) -> Seq<Seq<u8>> {
    s.map_values(|p: (Vec<u8>, V)| p.0@)
}

/// The keys of a list of viewed entries.
pub open spec fn vkeys<W>(s: Seq<(Seq<u8>, W)>) -> Seq<Seq<u8>> {
    s.map_values(|p: (Seq<u8>, W)| p.0)
}

/// Entries with byte-string values, viewed.
pub open spec fn sview(s: Seq<(Vec<u8>, Vec<u8>)>) -> Seq<(Seq<u8>, Seq<u8>)> {
    s.map_values(|p: (Vec<u8>, Vec<u8>)| (p.0@, p.1@))
}

/// Entries with plain values, viewed.
pub open spec fn bview<V>(s: Seq<(Vec<u8>, V)>) -> Seq<(Seq<u8>, V)> {
    s.map_values(|p: (Vec<u8>, V)| (p.0@, p.1))
}

/// The value stored under `k`, if any.
pub open spec fn get_at<W>(s: Seq<(Seq<u8>, W)>, k: Seq<u8>) -> Option<W> {
    match find_in(vkeys(s), k) {
        Some(i) => Some(s[i].1),
        None => None,
    }
}

/// `s` with the value of `k` set to `w`: replaced in place, or inserted
/// before the first key that is not smaller than `k`.
pub open spec fn set_at<W>(s: Seq<(Seq<u8>, W)>, k: Seq<u8>, w: W) -> Seq<(Seq<u8>, W)> {
    match find_in(vkeys(s), k) {
        Some(i) => s.update(i, (k, w)),
        None => s.insert(count_less(vkeys(s), k) as int, (k, w)),
    }
}

/// `s` without the entry of `k` (unchanged when absent).
pub open spec fn remove_at<W>(s: Seq<(Seq<u8>, W)>, k: Seq<u8>) -> Seq<(Seq<u8>, W)> {
    match find_in(vkeys(s), k) {
        Some(i) => s.remove(i),
        None => s,
    }
}

/// Reading a key after setting one gives the value set for that key, and
/// what was there for any other key.
pub proof fn lemma_get_set<W>(s: Seq<(Seq<u8>, W)>, k: Seq<u8>, w: W, k2: Seq<u8>)
    ensures
        get_at(set_at(s, k, w), k2) == (if k2 == k {
            Some(w)
        } else {
            get_at(s, k2)
        }),
{
    lemma_find_in_found(vkeys(s), k);
    lemma_find_in_found(vkeys(s), k2);
    match find_in(vkeys(s), k) {
        Some(i) => {
            assert(vkeys(s.update(i, (k, w))) =~= vkeys(s));
        },
        None => {
            let p = count_less(vkeys(s), k) as int;
            lemma_count_less_len(vkeys(s), k);
            let t = s.insert(p, (k, w));
            let kt = vkeys(t);
            let ks = vkeys(s);
            assert(kt =~= ks.insert(p, k));
            if k2 == k {
                lemma_find_in_at(kt, k, p);
            } else {
                lemma_find_in_first(ks, k2);
                match find_in(ks, k2) {
                    Some(i) => {
                        let i2 = if i < p {
                            i
                        } else {
                            i + 1
                        };
                        assert forall|j: int| 0 <= j < i2 implies kt[j] != k2 by {
                            if j < p {
                                assert(kt[j] == ks[j]);
                            } else if j > p {
                                assert(kt[j] == ks[j - 1]);
                            }
                        }
                        lemma_find_in_at(kt, k2, i2);
                    },
                    None => {
                        assert forall|j: int| 0 <= j < kt.len() implies kt[j] != k2 by {
                            if j < p {
                                assert(kt[j] == ks[j]);
                            } else if j > p {
                                assert(kt[j] == ks[j - 1]);
                            }
                        }
                        lemma_find_in_at(kt, k2, -1);
                    },
                }
            }
        },
    }
}

/// A map stays a map: setting or removing a key keeps a list in key order
/// in key order (and so free of repeated keys).
pub proof fn lemma_set_keeps_order<W>(s: Seq<(Seq<u8>, W)>, k: Seq<u8>, w: W)
    requires
        sorted_keys(vkeys(s)),
    ensures
        sorted_keys(vkeys(set_at(s, k, w))),
        sorted_keys(vkeys(remove_at(s, k))),
{
    let ks = vkeys(s);
    lemma_find_in_found(ks, k);
    match find_in(ks, k) {
        Some(i) => {
            assert(vkeys(s.update(i, (k, w))) =~= ks);
            let kr = vkeys(s.remove(i));
            assert(kr =~= ks.remove(i));
            assert forall|a: int, b: int| 0 <= a < b < kr.len() implies bytes_lt(kr[a], kr[b]) by {
                let a2 = if a < i { a } else { a + 1 };
                let b2 = if b < i { b } else { b + 1 };
                assert(kr[a] == ks[a2] && kr[b] == ks[b2]);
            }
        },
        None => {
            let p = count_less(ks, k) as int;
            lemma_count_less_sorted(ks, k);
            let kt = vkeys(s.insert(p, (k, w)));
            assert(kt =~= ks.insert(p, k));
            assert forall|a: int, b: int| 0 <= a < b < kt.len() implies bytes_lt(kt[a], kt[b]) by {
                if a < p && b < p {
                    assert(kt[a] == ks[a] && kt[b] == ks[b]);
                } else if a < p && b == p {
                    assert(kt[a] == ks[a]);
                } else if a < p {
                    assert(kt[a] == ks[a] && kt[b] == ks[b - 1]);
                    assert(bytes_lt(ks[a], k));
                    assert(!bytes_lt(ks[b - 1], k));
                    if ks[b - 1] != k {
                        lemma_lt_total(ks[b - 1], k);
                    }
                    lemma_lt_transitive(ks[a], k, ks[b - 1]);
                } else if a == p {
                    assert(kt[b] == ks[b - 1]);
                    assert(!bytes_lt(ks[b - 1], k));
                    lemma_lt_total(ks[b - 1], k);
                } else {
                    assert(kt[a] == ks[a - 1] && kt[b] == ks[b - 1]);
                }
            }
            assert(remove_at(s, k) == s);
        },
    }
}

/// Position of the first entry with key `k`.
pub fn find_key<V>(s: &Vec<(Vec<u8>, V)>, k: &Vec<u8>) -> (r: Option<usize>)
    ensures
        match r {
            Some(i) => find_in(keys_of(s@), k@) == Some(i as int) && i < s.len(),
            None => find_in(keys_of(s@), k@) is None,
        },
{
    let mut i: usize = 0;
    while i < s.len()
        invariant
            i <= s.len(),
            find_in(keys_of(s@).subrange(0, i as int), k@) is None,
        decreases s.len() - i,
    {
        if crate::common::bytes_eq(&s[i].0, k) {
            proof {
                let ks = keys_of(s@);
                assert(ks.subrange(0, i + 1).drop_last() =~= ks.subrange(0, i as int));
                assert(ks.subrange(0, i + 1).last() == k@);
                lemma_find_in_prefix(ks, i + 1, k@);
            }
            return Some(i);
        }
        proof {
            let ks = keys_of(s@);
            assert(ks.subrange(0, i + 1).drop_last() =~= ks.subrange(0, i as int));
        }
        i = i + 1;
    }
    assert(keys_of(s@).subrange(0, s.len() as int) =~= keys_of(s@));
    None
}

/// The key lists of an entry list and of its view agree.
pub proof fn lemma_keys_sview(s: Seq<(Vec<u8>, Vec<u8>)>)
    ensures
        vkeys(sview(s)) == keys_of(s),
{
    assert(vkeys(sview(s)) =~= keys_of(s));
}

/// The key lists of an entry list and of its view agree.
pub proof fn lemma_keys_bview<V>(s: Seq<(Vec<u8>, V)>)
    ensures
        vkeys(bview(s)) == keys_of(s),
{
    assert(vkeys(bview(s)) =~= keys_of(s));
}

/// Whether `a` comes before `b` in byte-wise lexicographic order.
pub fn lt_bytes(a: &Vec<u8>, b: &Vec<u8>) -> (r: bool)
    ensures
        r == bytes_lt(a@, b@),
{
    let mut i: usize = 0;
    assert(a@.subrange(0, a@.len() as int) =~= a@);
    assert(b@.subrange(0, b@.len() as int) =~= b@);
    while i < a.len() && i < b.len()
        invariant
            i <= a@.len(),
            i <= b@.len(),
            bytes_lt(a@, b@) == bytes_lt(a@.subrange(i as int, a@.len() as int), b@.subrange(i as int, b@.len() as int)),
        decreases a.len() - i,
    {
        proof {
            let sa = a@.subrange(i as int, a@.len() as int);
            let sb = b@.subrange(i as int, b@.len() as int);
            assert(sa.drop_first() =~= a@.subrange(i + 1, a@.len() as int));
            assert(sb.drop_first() =~= b@.subrange(i + 1, b@.len() as int));
            assert(sa[0] == a@[i as int]);
            assert(sb[0] == b@[i as int]);
        }
        if a[i] != b[i] {
            return a[i] < b[i];
        }
        i = i + 1;
    }
    proof {
        let sa = a@.subrange(i as int, a@.len() as int);
        let sb = b@.subrange(i as int, b@.len() as int);
        assert(sa.len() == 0 || sb.len() == 0);
    }
    i < b.len()
}

/// Where `k` goes among the keys of `s`: the number of keys before it.
pub fn insert_position<V>(s: &Vec<(Vec<u8>, V)>, k: &Vec<u8>) -> (r: usize)
    ensures
        r == count_less(keys_of(s@), k@),
        r <= s@.len(),
{
    let mut n: usize = 0;
    let mut i: usize = 0;
    while i < s.len()
        invariant
            i <= s.len(),
            n <= i,
            n == count_less(keys_of(s@).subrange(0, i as int), k@),
        decreases s.len() - i,
    {
        proof {
            let ks = keys_of(s@);
            assert(ks.subrange(0, i + 1).drop_last() =~= ks.subrange(0, i as int));
        }
        if lt_bytes(&s[i].0, k) {
            n = n + 1;
        }
        i = i + 1;
    }
    assert(keys_of(s@).subrange(0, s.len() as int) =~= keys_of(s@));
    n
}

/// Sets the byte-string value of `k`.
pub fn set_str(s: &mut Vec<(Vec<u8>, Vec<u8>)>, k: Vec<u8>, v: Vec<u8>)
    ensures
        sview(final(s)@) == set_at(sview(old(s)@), k@, v@),
{
    proof {
        lemma_keys_sview(old(s)@);
    }
    match find_key(s, &k) {
        Some(i) => {
            s.set(i, (k, v));
            assert(sview(s@) =~= sview(old(s)@).update(i as int, (k@, v@)));
        },
        None => {
            let p = insert_position(s, &k);
            s.insert(p, (k, v));
            assert(sview(s@) =~= sview(old(s)@).insert(p as int, (k@, v@)));
        },
    }
}

/// Removes the entry of `k`, if any.
pub fn remove_str(s: &mut Vec<(Vec<u8>, Vec<u8>)>, k: &Vec<u8>)
    ensures
        sview(final(s)@) == remove_at(sview(old(s)@), k@),
{
    proof {
        lemma_keys_sview(old(s)@);
    }
    match find_key(s, k) {
        Some(i) => {
            s.remove(i);
            assert(sview(s@) =~= sview(old(s)@).remove(i as int));
        },
        None => {},
    }
}

/// Whether `k` has an entry.
pub fn has_key<V>(s: &Vec<(Vec<u8>, V)>, k: &Vec<u8>) -> (r: bool)
    ensures
        r == find_in(keys_of(s@), k@) is Some,
{
    find_key(s, k).is_some()
}

/// A copy of the byte-string value of `k`, if any.
pub fn get_str(s: &Vec<(Vec<u8>, Vec<u8>)>, k: &Vec<u8>) -> (r: Option<Vec<u8>>)
    ensures
        match r {
            Some(v) => get_at(sview(s@), k@) == Some(v@),
            None => get_at(sview(s@), k@) is None,
        },
{
    proof {
        lemma_keys_sview(s@);
    }
    match find_key(s, k) {
        Some(i) => Some(crate::common::copy_bytes(&s[i].1)),
        None => None,
    }
}

/// Sets the plain value of `k`.
pub fn set_val<V: Copy>(s: &mut Vec<(Vec<u8>, V)>, k: Vec<u8>, v: V)
    ensures
        bview(final(s)@) == set_at(bview(old(s)@), k@, v),
{
    proof {
        lemma_keys_bview(old(s)@);
    }
    match find_key(s, &k) {
        Some(i) => {
            s.set(i, (k, v));
            assert(bview(s@) =~= bview(old(s)@).update(i as int, (k@, v)));
        },
        None => {
            let p = insert_position(s, &k);
            s.insert(p, (k, v));
            assert(bview(s@) =~= bview(old(s)@).insert(p as int, (k@, v)));
        },
    }
}

/// The plain value of `k`, if any.
pub fn get_val<V: Copy>(s: &Vec<(Vec<u8>, V)>, k: &Vec<u8>) -> (r: Option<V>)
    ensures
        r == get_at(bview(s@), k@),
{
    proof {
        lemma_keys_bview(s@);
    }
    match find_key(s, k) {
        Some(i) => Some(s[i].1),
        None => None,
    }
}

/// A copy of a list of byte-string entries.
pub fn copy_str_entries(s: &Vec<(Vec<u8>, Vec<u8>)>) -> (r: Vec<(Vec<u8>, Vec<u8>)>)
    ensures
        sview(r@) == sview(s@),
{
    let mut r: Vec<(Vec<u8>, Vec<u8>)> = Vec::new();
    let mut i: usize = 0;
    while i < s.len()
        invariant
            i <= s.len(),
            sview(r@) == sview(s@.subrange(0, i as int)),
        decreases s.len() - i,
    {
        let k = crate::common::copy_bytes(&s[i].0);
        let v = crate::common::copy_bytes(&s[i].1);
        let ghost r0 = r@;
        r.push((k, v));
        assert(sview(r@) =~= sview(r0).push((k@, v@)));
        assert(s@.subrange(0, i + 1) =~= s@.subrange(0, i as int).push(s@[i as int]));
        assert(sview(s@.subrange(0, i + 1)) =~= sview(s@.subrange(0, i as int)).push(
            (s@[i as int].0@, s@[i as int].1@),
        ));
        i = i + 1;
    }
    assert(s@.subrange(0, s.len() as int) =~= s@);
    r
}

/// A copy of a list of plain-valued entries.
pub fn copy_val_entries<V: Copy>(s: &Vec<(Vec<u8>, V)>) -> (r: Vec<(Vec<u8>, V)>)
    ensures
        bview(r@) == bview(s@),
{
    let mut r: Vec<(Vec<u8>, V)> = Vec::new();
    let mut i: usize = 0;
    while i < s.len()
        invariant
            i <= s.len(),
            bview(r@) == bview(s@.subrange(0, i as int)),
        decreases s.len() - i,
    {
        let k = crate::common::copy_bytes(&s[i].0);
        let ghost r0 = r@;
        r.push((k, s[i].1));
        assert(bview(r@) =~= bview(r0).push((k@, s@[i as int].1)));
        assert(s@.subrange(0, i + 1) =~= s@.subrange(0, i as int).push(s@[i as int]));
        assert(bview(s@.subrange(0, i + 1)) =~= bview(s@.subrange(0, i as int)).push(
            (s@[i as int].0@, s@[i as int].1),
        ));
        i = i + 1;
    }
    assert(s@.subrange(0, s.len() as int) =~= s@);
    r
}

} // verus!
