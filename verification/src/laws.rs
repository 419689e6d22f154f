//! Properties of the registry that hold for every store, proved once and
//! for all: id assignment under registrations alone, what authorization
//! protects, what an update may touch, and what the substring searches
//! return.

use vstd::prelude::*;

use crate::io::{ActorId, DnsRecord};
use crate::matching::{is_substring, lemma_empty_is_substring};
use crate::store::{
    lemma_spec_find, new_record, sel_description, sel_pattern, spec_find,
    spec_get_by_description, spec_get_by_id, spec_get_by_pattern, spec_register, spec_remove,
    spec_update,
};

verus! {

/// Every record's id equals its position in the store: the shape a store
/// has when it was built by registrations alone.
pub open spec fn ids_sequential(s: Seq<DnsRecord>) -> bool {
    forall|i: int| 0 <= i < s.len() ==> (#[trigger] s[i]).id == i
}

/// No two records share an id.
pub open spec fn unique_ids(s: Seq<DnsRecord>) -> bool {
    forall|i: int, j: int| 0 <= i < j < s.len() ==> (#[trigger] s[i]).id != (#[trigger] s[j]).id
}

/// Matches a record whose name contains `pat` as a substring (one half of
/// the pattern search).
pub open spec fn sel_name_contains(pat: Seq<char>) -> spec_fn(DnsRecord) -> bool {
    |r: DnsRecord| is_substring(pat, r.name@)
}

/// With registrations alone — no removals — assigned ids are 0, 1, 2, ...:
/// every registration is assigned an id equal to the store size, strictly
/// greater than every id already present, so the ids stay sequential and
/// pairwise distinct.
pub proof fn lemma_register_ids_strictly_increase(
    s: Seq<DnsRecord>,
    caller: ActorId,
    name: String,
    link: String,
    description: String,
)
    requires
        ids_sequential(s),
        s.len() < u32::MAX,
    ensures
        new_record(s, caller, name, link, description).id == s.len(),
        forall|i: int|
            0 <= i < s.len() ==> (#[trigger] s[i]).id < new_record(
                s,
                caller,
                name,
                link,
                description,
            ).id,
        ids_sequential(spec_register(s, caller, name, link, description)),
        unique_ids(spec_register(s, caller, name, link, description)),
{
    let s2 = spec_register(s, caller, name, link, description);
    assert forall|i: int| 0 <= i < s2.len() implies (#[trigger] s2[i]).id == i by {
        if i < s.len() {
            assert(s2[i] == s[i]);
        }
    }
}

/// A registration by caller `caller` always yields a record whose creator
/// is `caller`, with the name, link and description copied verbatim, and
/// appends exactly that record to the store.
pub proof fn lemma_register_fields(
    s: Seq<DnsRecord>,
    caller: ActorId,
    name: String,
    link: String,
    description: String,
)
    ensures
        new_record(s, caller, name, link, description).created_by == caller,
        new_record(s, caller, name, link, description).name == name,
        new_record(s, caller, name, link, description).link == link,
        new_record(s, caller, name, link, description).description == description,
        spec_register(s, caller, name, link, description) == s.push(
            new_record(s, caller, name, link, description),
        ),
{
}

/// A removal by anyone but the record's creator — or of an id no record
/// has — returns nothing and leaves the store's records exactly as they
/// were; the two cases are indistinguishable to the caller.
pub proof fn lemma_remove_unauthorized(s: Seq<DnsRecord>, caller: ActorId, id: u32)
    requires
        ({
            let k = spec_find(s, id);
            k == -1 || s[k].created_by != caller
        }),
    ensures
        spec_remove(s, caller, id).0 == s,
        spec_remove(s, caller, id).1 is None,
{
}

/// An update by anyone but the record's creator — or of an id no record
/// has — returns nothing and changes nothing.
pub proof fn lemma_update_unauthorized(
    s: Seq<DnsRecord>,
    caller: ActorId,
    id: u32,
    name: Option<String>,
    link: Option<String>,
    description: Option<String>,
)
    requires
        ({
            let k = spec_find(s, id);
            k == -1 || s[k].created_by != caller
        }),
    ensures
        spec_update(s, caller, id, name, link, description).0 == s,
        spec_update(s, caller, id, name, link, description).1 is None,
{
}

/// When ids are unique and the creator removes a record, exactly that
/// record goes: the store shrinks by one, the id can no longer be looked
/// up, and every other record is still present (possibly reordered by the
/// swap-to-end-then-truncate removal).
pub proof fn lemma_remove_by_owner(s: Seq<DnsRecord>, caller: ActorId, id: u32)
    requires
        unique_ids(s),
        spec_remove(s, caller, id).1 is Some,
    ensures
        ({
            let k = spec_find(s, id);
            let s2 = spec_remove(s, caller, id).0;
            &&& 0 <= k < s.len()
            &&& s[k].id == id
            &&& spec_remove(s, caller, id).1 == Some(s[k])
            &&& s2.len() == s.len() - 1
            &&& spec_get_by_id(s2, id) is None
            &&& forall|j: int| 0 <= j < s.len() && j != k ==> s2.contains(#[trigger] s[j])
            &&& forall|j: int| 0 <= j < s2.len() ==> s.contains(#[trigger] s2[j])
            &&& forall|id2: u32| id2 != id ==> #[trigger] spec_get_by_id(s2, id2)
                == spec_get_by_id(s, id2)
        }),
{
    lemma_spec_find(s, id);
    let k = spec_find(s, id);
    let s2 = spec_remove(s, caller, id).0;
    assert forall|i: int| 0 <= i < s2.len() implies (#[trigger] s2[i]).id != id by {
        if i == k {
            assert(s2[i] == s[s.len() - 1]);
        } else {
            assert(s2[i] == s[i]);
        }
    }
    lemma_spec_find(s2, id);
    assert forall|j: int| 0 <= j < s.len() && j != k implies s2.contains(#[trigger] s[j]) by {
        if j == s.len() - 1 {
            assert(s2[k] == s[j]);
        } else {
            assert(s2[j] == s[j]);
        }
    }
    assert forall|j: int| 0 <= j < s2.len() implies s.contains(#[trigger] s2[j]) by {
        if j == k {
            assert(s2[j] == s[s.len() - 1]);
        } else {
            assert(s2[j] == s[j]);
        }
    }
    assert forall|id2: u32| id2 != id implies #[trigger] spec_get_by_id(s2, id2)
        == spec_get_by_id(s, id2) by {
        lemma_spec_find(s, id2);
        lemma_spec_find(s2, id2);
        let f1 = spec_find(s, id2);
        let f2 = spec_find(s2, id2);
        if f1 == -1 {
            if f2 != -1 {
                // the found record is one of the records of the old store
                if f2 == k {
                    assert(s2[f2] == s[s.len() - 1]);
                } else {
                    assert(s2[f2] == s[f2]);
                }
            }
        } else {
            // the first record with id2 survives the removal ...
            if f1 == s.len() - 1 {
                assert(s2[k] == s[f1]);
            } else {
                assert(s2[f1] == s[f1]);
            }
            // ... so it is still found, and id uniqueness makes it the
            // record the search in the new store returns
            if f2 == k {
                assert(s2[f2] == s[s.len() - 1]);
            } else {
                assert(s2[f2] == s[f2]);
            }
        }
    }
}

/// An owner's update overwrites exactly the fields that are present and
/// keeps the absent ones; id and creator never change, every other record
/// is untouched, and the updated record is what the call returns.
pub proof fn lemma_update_partial_fields(
    s: Seq<DnsRecord>,
    caller: ActorId,
    id: u32,
    name: Option<String>,
    link: Option<String>,
    description: Option<String>,
)
    requires
        ({
            let k = spec_find(s, id);
            k != -1 && s[k].created_by == caller
        }),
    ensures
        ({
            let k = spec_find(s, id);
            let s2 = spec_update(s, caller, id, name, link, description).0;
            &&& 0 <= k < s.len()
            &&& s2.len() == s.len()
            &&& spec_update(s, caller, id, name, link, description).1 == Some(s2[k])
            &&& s2[k].id == s[k].id
            &&& s2[k].created_by == s[k].created_by
            &&& s2[k].name == (match name {
                Some(n) => n,
                None => s[k].name,
            })
            &&& s2[k].link == (match link {
                Some(l) => l,
                None => s[k].link,
            })
            &&& s2[k].description == (match description {
                Some(d) => d,
                None => s[k].description,
            })
            &&& forall|j: int| 0 <= j < s.len() && j != k ==> #[trigger] s2[j] == s[j]
        }),
{
    lemma_spec_find(s, id);
}

/// A filtered sequence holds a record exactly when the store holds it and
/// the predicate accepts it.
proof fn lemma_filter_mem(s: Seq<DnsRecord>, pred: spec_fn(DnsRecord) -> bool)
    ensures
        forall|r: DnsRecord| #[trigger]
            s.filter(pred).contains(r) <==> (s.contains(r) && pred(r)),
    decreases s.len(),
{
    reveal(Seq::filter);
    if s.len() == 0 {
    } else {
        let t = s.drop_last();
        let x = s.last();
        let f = s.filter(pred);
        lemma_filter_mem(t, pred);
        assert forall|r: DnsRecord| #[trigger] f.contains(r) implies s.contains(r) && pred(r) by {
            let i = choose|i: int| 0 <= i < f.len() && f[i] == r;
            if pred(x) && i == f.len() - 1 {
                assert(r == x);
                assert(s[s.len() - 1] == r);
            } else {
                assert(t.filter(pred)[i] == r);
                assert(t.filter(pred).contains(r));
                let j = choose|j: int| 0 <= j < t.len() && t[j] == r;
                assert(s[j] == r);
            }
        }
        assert forall|r: DnsRecord| s.contains(r) && pred(r) implies #[trigger] f.contains(r) by {
            let i = choose|i: int| 0 <= i < s.len() && s[i] == r;
            if i == s.len() - 1 {
                assert(f[f.len() - 1] == r);
            } else {
                assert(t[i] == r);
                assert(t.contains(r));
                assert(t.filter(pred).contains(r));
                let j = choose|j: int| 0 <= j < t.filter(pred).len() && t.filter(pred)[j] == r;
                assert(f[j] == r);
            }
        }
    }
}

/// A filter keeps every record the predicate accepts everywhere.
proof fn lemma_filter_all(s: Seq<DnsRecord>, pred: spec_fn(DnsRecord) -> bool)
    requires
        forall|i: int| 0 <= i < s.len() ==> pred(#[trigger] s[i]),
    ensures
        s.filter(pred) == s,
    decreases s.len(),
{
    reveal(Seq::filter);
    if s.len() == 0 {
    } else {
        let t = s.drop_last();
        assert(forall|i: int| 0 <= i < t.len() ==> #[trigger] t[i] == s[i]);
        lemma_filter_all(t, pred);
        assert(t.push(s.last()) =~= s);
    }
}

/// A filter returns each record no more often than the store holds it: it
/// never duplicates.
proof fn lemma_filter_count(s: Seq<DnsRecord>, pred: spec_fn(DnsRecord) -> bool, r: DnsRecord)
    ensures
        s.filter(pred).to_multiset().count(r) <= s.to_multiset().count(r),
    decreases s.len(),
{
    broadcast use vstd::seq_lib::group_to_multiset_ensures;

    reveal(Seq::filter);
    if s.len() == 0 {
    } else {
        let t = s.drop_last();
        let x = s.last();
        lemma_filter_count(t, pred, r);
        assert(t.push(x) =~= s);
        assert(s.to_multiset() == t.push(x).to_multiset());
        if pred(x) {
            assert(s.filter(pred) == t.filter(pred).push(x));
        }
    }
}

/// The description search returns exactly the records whose description
/// contains the pattern — each as often as the store holds it — and the
/// empty pattern matches every record.
pub proof fn lemma_description_search_exact(s: Seq<DnsRecord>, pat: Seq<char>)
    ensures
        forall|r: DnsRecord| #[trigger]
            spec_get_by_description(s, pat).contains(r) <==> (s.contains(r) && is_substring(
                pat,
                r.description@,
            )),
        forall|r: DnsRecord|
            #[trigger] spec_get_by_description(s, pat).to_multiset().count(r)
                <= s.to_multiset().count(r),
        spec_get_by_description(s, Seq::<char>::empty()) == s,
{
    lemma_filter_mem(s, sel_description(pat));
    assert forall|r: DnsRecord|
        #[trigger] spec_get_by_description(s, pat).to_multiset().count(r) <= s.to_multiset().count(
        r,
    ) by {
        lemma_filter_count(s, sel_description(pat), r);
    }
    assert forall|i: int| 0 <= i < s.len() implies sel_description(Seq::<char>::empty())(
        #[trigger] s[i],
    ) by {
        lemma_empty_is_substring(s[i].description@);
    }
    lemma_filter_all(s, sel_description(Seq::<char>::empty()));
}

/// The pattern search is the union of name-contains and
/// description-contains: a record is returned exactly when the store holds
/// it and the pattern occurs in its name or in its description — and no
/// record is returned more often than the store holds it, even when both
/// fields match.
pub proof fn lemma_pattern_search_is_union(s: Seq<DnsRecord>, pat: Seq<char>)
    ensures
        forall|r: DnsRecord| #[trigger]
            spec_get_by_pattern(s, pat).contains(r) <==> (s.filter(
                sel_name_contains(pat),
            ).contains(r) || spec_get_by_description(s, pat).contains(r)),
        forall|r: DnsRecord|
            #[trigger] spec_get_by_pattern(s, pat).to_multiset().count(r) <= s.to_multiset().count(
                r,
            ),
{
    lemma_filter_mem(s, sel_pattern(pat));
    lemma_filter_mem(s, sel_name_contains(pat));
    lemma_filter_mem(s, sel_description(pat));
    assert forall|r: DnsRecord|
        #[trigger] spec_get_by_pattern(s, pat).to_multiset().count(r) <= s.to_multiset().count(
        r,
    ) by {
        lemma_filter_count(s, sel_pattern(pat), r);
    }
}

} // verus!
