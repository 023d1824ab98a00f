//! Rule lists kept in ascending id order, one rule per id, as an ordered map
//! from id to rule.
use vstd::prelude::*;

verus! {

/// A rule that carries its own id.
pub trait RuleId {
    spec fn rule_id(&self) -> u64;

    fn id_value(&self) -> (r: u64)
        ensures
            r == self.rule_id(),
    ;
}

/// The ids of a rule list, in list order.
pub open spec fn ids_of<R: RuleId>(s: Seq<R>) -> Seq<u64> {
    s.map_values(|r: R| r.rule_id())
}

/// Strictly ascending ids (so none occurs twice).
pub open spec fn ascending(ids: Seq<u64>) -> bool {
    forall|i: int, j: int| 0 <= i < j < ids.len() ==> ids[i] < ids[j]
}

/// `i` is where `id` belongs in an ascending list: the ids before it are
/// smaller, the ids from it on are not.
pub open spec fn slot_of(ids: Seq<u64>, id: u64, i: int) -> bool {
    &&& 0 <= i <= ids.len()
    &&& forall|j: int| 0 <= j < i ==> ids[j] < id
    &&& forall|j: int| i <= j < ids.len() ==> ids[j] >= id
}

/// `s` with `r` stored at slot `i`: replacing the rule of the same id, or
/// inserted before the larger ids.
pub open spec fn put_at<R: RuleId>(s: Seq<R>, i: int, r: R) -> Seq<R> {
    if i < s.len() && s[i].rule_id() == r.rule_id() {
        s.update(i, r)
    } else {
        s.insert(i, r)
    }
}

/// Stores `r` under its id, keeping the list ascending.
pub fn insert_rule<R: RuleId>(v: &mut Vec<R>, r: R)
    requires
        ascending(ids_of(old(v)@)),
    ensures
        ascending(ids_of(final(v)@)),
        exists|i: int| slot_of(ids_of(old(v)@), r.rule_id(), i) && final(v)@ == put_at(old(v)@, i, r),
{
    let id = r.id_value();
    let mut i: usize = 0;
    while i < v.len()
        invariant
            v@ == old(v)@,
            i <= v.len(),
            ascending(ids_of(v@)),
            forall|j: int| 0 <= j < i ==> ids_of(v@)[j] < id,
            id == r.rule_id(),
        ensures
            i <= v.len(),
            i < v.len() ==> ids_of(v@)[i as int] >= id,
        decreases v.len() - i,
    {
        if v[i].id_value() >= id {
            break;
        }
        i = i + 1;
    }
    let ghost ids = ids_of(v@);
    assert(slot_of(ids, id, i as int)) by {
        assert forall|j: int| i <= j < ids.len() implies ids[j] >= id by {
            if j > i {
                assert(ids[i as int] < ids[j]);
            }
        }
    }
    if i < v.len() && v[i].id_value() == id {
        v.set(i, r);
        assert(ids_of(v@) =~= ids.update(i as int, id));
    } else {
        v.insert(i, r);
        assert(ids_of(v@) =~= ids.insert(i as int, id));
        assert(ascending(ids_of(v@))) by {
            let n = ids_of(v@);
            assert forall|a: int, b: int| 0 <= a < b < n.len() implies n[a] < n[b] by {
                if b < i {
                    assert(n[a] == ids[a] && n[b] == ids[b]);
                } else if b == i {
                    assert(n[a] == ids[a]);
                } else if a < i {
                    assert(n[a] == ids[a] && n[b] == ids[b - 1]);
                } else if a == i {
                    assert(n[b] == ids[b - 1]);
                    assert(ids[b - 1] >= id);
                    assert(ids[b - 1] != id || (b - 1 == i as int && ids[i as int] == id));
                } else {
                    assert(n[a] == ids[a - 1] && n[b] == ids[b - 1]);
                }
            }
        }
    }
    assert(v@ == put_at(old(v)@, i as int, r));
}

/// Removes the rule with id `id`; returns whether there was one.
pub fn remove_rule<R: RuleId>(v: &mut Vec<R>, id: u64) -> (found: bool)
    requires
        ascending(ids_of(old(v)@)),
    ensures
        ascending(ids_of(final(v)@)),
        found == ids_of(old(v)@).contains(id),
        found ==> exists|i: int|
            0 <= i < old(v)@.len() && old(v)@[i].rule_id() == id && final(v)@ == old(v)@.remove(i),
        !found ==> *final(v) == *old(v),
{
    let mut i: usize = 0;
    while i < v.len()
        invariant
            *v == *old(v),
            v@ == old(v)@,
            i <= v.len(),
            ascending(ids_of(v@)),
            forall|j: int| 0 <= j < i ==> ids_of(v@)[j] != id,
        decreases v.len() - i,
    {
        if v[i].id_value() == id {
            let ghost ids = ids_of(v@);
            assert(ids[i as int] == id);
            v.remove(i);
            assert(ids_of(v@) =~= ids.remove(i as int));
            assert(ascending(ids_of(v@))) by {
                let n = ids_of(v@);
                assert forall|a: int, b: int| 0 <= a < b < n.len() implies n[a] < n[b] by {
                    if b < i {
                        assert(n[a] == ids[a] && n[b] == ids[b]);
                    } else if a < i {
                        assert(n[a] == ids[a] && n[b] == ids[b + 1]);
                    } else {
                        assert(n[a] == ids[a + 1] && n[b] == ids[b + 1]);
                    }
                }
            }
            return true;
        }
        i = i + 1;
    }
    assert(!ids_of(v@).contains(id));
    false
}

} // verus!
