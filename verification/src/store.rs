//! The record store: registration with count-derived id assignment,
//! owner-only removal and update, and the shared query operations.
//!
//! Every operation is specified against a mathematical model: `spec_find`
//! locates the first record with a given id, and each operation's result is
//! a pure function (`spec_register`, `spec_remove`, ...) of the store's
//! current sequence of records.

use vstd::prelude::*;

use crate::io::{ActorId, DnsRecord};
use crate::matching::is_substring;

verus! {

/// Index of the first record with the given id, or -1 when there is none.
pub open spec fn spec_find(s: Seq<DnsRecord>, id: u32) -> int
    decreases s.len(),
{
    if s.len() == 0 {
        -1
    } else if s[0].id == id {
        0
    } else {
        let rest = spec_find(s.drop_first(), id);
        if rest == -1 {
            -1
        } else {
            rest + 1
        }
    }
}

/// `spec_find` returns -1 exactly when no record has the id, and otherwise
/// the position of the first record that has it.
pub proof fn lemma_spec_find(s: Seq<DnsRecord>, id: u32)
    ensures
        spec_find(s, id) == -1 ==> forall|i: int| 0 <= i < s.len() ==> s[i].id != id,
        spec_find(s, id) != -1 ==> ({
            let k = spec_find(s, id);
            &&& 0 <= k < s.len()
            &&& s[k].id == id
            &&& forall|j: int| 0 <= j < k ==> s[j].id != id
        }),
    decreases s.len(),
{
    if s.len() == 0 {
    } else if s[0].id == id {
    } else {
        lemma_spec_find(s.drop_first(), id);
        let rest = spec_find(s.drop_first(), id);
        if rest == -1 {
            assert forall|i: int| 0 <= i < s.len() implies s[i].id != id by {
                if i > 0 {
                    assert(s[i] == s.drop_first()[i - 1]);
                }
            }
        } else {
            assert(s[rest + 1] == s.drop_first()[rest]);
            assert forall|j: int| 0 <= j < rest + 1 implies s[j].id != id by {
                if j > 0 {
                    assert(s[j] == s.drop_first()[j - 1]);
                }
            }
        }
    }
}

/// Matches a record whose name equals `name` exactly.
pub open spec fn sel_name(name: Seq<char>) -> spec_fn(DnsRecord) -> bool {
    |r: DnsRecord| r.name@ == name
}

/// Matches a record whose description contains `pat` as a substring.
pub open spec fn sel_description(pat: Seq<char>) -> spec_fn(DnsRecord) -> bool {
    |r: DnsRecord| is_substring(pat, r.description@)
}

/// Matches a record created by `creator`.
pub open spec fn sel_creator(creator: ActorId) -> spec_fn(DnsRecord) -> bool {
    |r: DnsRecord| r.created_by == creator
}

/// Matches a record whose name or description contains `pat` as a substring.
pub open spec fn sel_pattern(pat: Seq<char>) -> spec_fn(DnsRecord) -> bool {
    |r: DnsRecord| is_substring(pat, r.name@) || is_substring(pat, r.description@)
}

/// The record a registration builds: its id is the current record count.
pub open spec fn new_record(
    s: Seq<DnsRecord>,
    caller: ActorId,
    name: String,
    link: String,
    description: String,
) -> DnsRecord {
    DnsRecord { id: s.len() as u32, name, link, description, created_by: caller }
}

/// The store after a registration: the new record is appended at the end.
pub open spec fn spec_register(
    s: Seq<DnsRecord>,
    caller: ActorId,
    name: String,
    link: String,
    description: String,
) -> Seq<DnsRecord> {
    s.push(new_record(s, caller, name, link, description))
}

/// The store and reply after a removal. Only the creator of the first record
/// with the id may remove it; the removal swaps the last record into its
/// place and truncates. "No such record" and "not the owner" both yield an
/// unchanged store and an empty reply.
pub open spec fn spec_remove(s: Seq<DnsRecord>, caller: ActorId, id: u32) -> (
    Seq<DnsRecord>,
    Option<DnsRecord>,
) {
    let k = spec_find(s, id);
    if k == -1 {
        (s, None)
    } else if s[k].created_by != caller {
        (s, None)
    } else {
        (s.update(k, s.last()).drop_last(), Some(s[k]))
    }
}

/// The record after an update: each present field overwrites the old value,
/// each absent field is kept; id and creator never change.
pub open spec fn updated_record(
    r: DnsRecord,
    name: Option<String>,
    link: Option<String>,
    description: Option<String>,
) -> DnsRecord {
    DnsRecord {
        id: r.id,
        name: match name {
            Some(n) => n,
            None => r.name,
        },
        link: match link {
            Some(l) => l,
            None => r.link,
        },
        description: match description {
            Some(d) => d,
            None => r.description,
        },
        created_by: r.created_by,
    }
}

/// The store and reply after an update, with the same authorization rule and
/// the same empty reply for "no such record" and "not the owner" as removal.
pub open spec fn spec_update(
    s: Seq<DnsRecord>,
    caller: ActorId,
    id: u32,
    name: Option<String>,
    link: Option<String>,
    description: Option<String>,
) -> (Seq<DnsRecord>, Option<DnsRecord>) {
    let k = spec_find(s, id);
    if k == -1 {
        (s, None)
    } else if s[k].created_by != caller {
        (s, None)
    } else {
        let r1 = updated_record(s[k], name, link, description);
        (s.update(k, r1), Some(r1))
    }
}

/// The first record with the given id, if any.
pub open spec fn spec_get_by_id(s: Seq<DnsRecord>, id: u32) -> Option<DnsRecord> {
    let k = spec_find(s, id);
    if k == -1 {
        None
    } else {
        Some(s[k])
    }
}

/// All records whose name equals `name`, in store order.
pub open spec fn spec_get_by_name(s: Seq<DnsRecord>, name: Seq<char>) -> Seq<DnsRecord> {
    s.filter(sel_name(name))
}

/// All records whose description contains `pat`, in store order.
pub open spec fn spec_get_by_description(s: Seq<DnsRecord>, pat: Seq<char>) -> Seq<DnsRecord> {
    s.filter(sel_description(pat))
}

/// All records created by `creator`, in store order.
pub open spec fn spec_get_by_creator(s: Seq<DnsRecord>, creator: ActorId) -> Seq<DnsRecord> {
    s.filter(sel_creator(creator))
}

/// All records whose name or description contains `pat`, in store order.
pub open spec fn spec_get_by_pattern(s: Seq<DnsRecord>, pat: Seq<char>) -> Seq<DnsRecord> {
    s.filter(sel_pattern(pat))
}

/// Filtering a sequence extended by one element keeps the element exactly
/// when the predicate accepts it.
pub proof fn lemma_filter_push(s: Seq<DnsRecord>, x: DnsRecord, pred: spec_fn(DnsRecord) -> bool)
    ensures
        s.push(x).filter(pred) == if pred(x) {
            s.filter(pred).push(x)
        } else {
            s.filter(pred)
        },
{
    reveal(Seq::filter);
    assert(s.push(x).drop_last() =~= s);
    assert(s.push(x).last() == x);
}

/// The record store interface: every operation takes the identity of the
/// caller that the surrounding runtime attributes to the request.
pub trait Dns {
    /// The records the store holds, in their current order.
    spec fn recs(&self) -> Seq<DnsRecord>;

    /// Register a new record: assign it the current record count as id,
    /// append it, and return a copy of it. Registration always succeeds.
    fn add_record(
        &mut self,
        caller: ActorId,
        name: String,
        link: String,
        description: String,
    ) -> (r: DnsRecord)
        requires
            old(self).recs().len() < u32::MAX,
        ensures
            final(self).recs() == spec_register(old(self).recs(), caller, name, link, description),
            r == new_record(old(self).recs(), caller, name, link, description),
    ;

    /// Remove the first record with the given id, if it exists and the
    /// caller created it; otherwise change nothing and return nothing.
    fn remove_record(&mut self, caller: ActorId, id: u32) -> (r: Option<DnsRecord>)
        ensures
            final(self).recs() == spec_remove(old(self).recs(), caller, id).0,
            r == spec_remove(old(self).recs(), caller, id).1,
    ;

    /// Overwrite the present fields of the first record with the given id,
    /// if it exists and the caller created it; otherwise change nothing and
    /// return nothing.
    fn update_record(
        &mut self,
        caller: ActorId,
        id: u32,
        name: Option<String>,
        link: Option<String>,
        description: Option<String>,
    ) -> (r: Option<DnsRecord>)
        ensures
            final(self).recs() == spec_update(old(self).recs(), caller, id, name, link, description).0,
            r == spec_update(old(self).recs(), caller, id, name, link, description).1,
    ;

    /// A copy of the first record with the given id, if any.
    fn get_by_id(&self, id: u32) -> (r: Option<DnsRecord>)
        ensures
            r == spec_get_by_id(self.recs(), id),
    ;

    /// Copies of all records whose name equals `name`, in store order.
    fn get_by_name(&self, name: String) -> (out: Vec<DnsRecord>)
        ensures
            out@ == spec_get_by_name(self.recs(), name@),
    ;

    /// Copies of all records whose description contains `description` as a
    /// substring, in store order.
    fn get_by_description(&self, description: String) -> (out: Vec<DnsRecord>)
        ensures
            out@ == spec_get_by_description(self.recs(), description@),
    ;

    /// Copies of all records created by `creator`, in store order.
    fn get_by_creator(&self, creator: ActorId) -> (out: Vec<DnsRecord>)
        ensures
            out@ == spec_get_by_creator(self.recs(), creator),
    ;

    /// Copies of all records whose name or description contains `pattern` as
    /// a substring, in store order.
    fn get_by_pattern(&self, pattern: String) -> (out: Vec<DnsRecord>)
        ensures
            out@ == spec_get_by_pattern(self.recs(), pattern@),
    ;
}

impl Dns for Vec<DnsRecord> {
    open spec fn recs(&self) -> Seq<DnsRecord> {
        self@
    }

    fn add_record(
        &mut self,
        caller: ActorId,
        name: String,
        link: String,
        description: String,
    ) -> (r: DnsRecord) {
        let id = self.len() as u32;
        let rec = DnsRecord { id, name, link, description, created_by: caller };
        let ret = rec.duplicate();
        self.push(rec);
        ret
    }

    fn remove_record(&mut self, caller: ActorId, id: u32) -> (r: Option<DnsRecord>) {
        let n = self.len();
        let mut i: usize = 0;
        while i < n
            invariant
                n == self@.len(),
                i <= n,
                *self == *old(self),
                forall|j: int| 0 <= j < i ==> self@[j].id != id,
            decreases n - i,
        {
            if self[i].id == id {
                proof {
                    lemma_spec_find(self@, id);
                }
                if self[i].created_by.equals(&caller) {
                    let rec = self.swap_remove(i);
                    return Some(rec);
                } else {
                    return None;
                }
            }
            i += 1;
        }
        proof {
            lemma_spec_find(self@, id);
        }
        None
    }

    fn update_record(
        &mut self,
        caller: ActorId,
        id: u32,
        name: Option<String>,
        link: Option<String>,
        description: Option<String>,
    ) -> (r: Option<DnsRecord>) {
        let n = self.len();
        let mut i: usize = 0;
        while i < n
            invariant
                n == self@.len(),
                i <= n,
                *self == *old(self),
                forall|j: int| 0 <= j < i ==> self@[j].id != id,
            decreases n - i,
        {
            if self[i].id == id {
                proof {
                    lemma_spec_find(self@, id);
                }
                if self[i].created_by.equals(&caller) {
                    let upd = DnsRecord {
                        id: self[i].id,
                        name: match name {
                            Some(n) => n,
                            None => self[i].name.clone(),
                        },
                        link: match link {
                            Some(l) => l,
                            None => self[i].link.clone(),
                        },
                        description: match description {
                            Some(d) => d,
                            None => self[i].description.clone(),
                        },
                        created_by: self[i].created_by,
                    };
                    let ret = upd.duplicate();
                    self.push(upd);
                    self.swap_remove(i);
                    proof {
                        assert(self@ =~= old(self)@.update(
                            i as int,
                            updated_record(old(self)@[i as int], name, link, description),
                        ));
                    }
                    return Some(ret);
                } else {
                    return None;
                }
            }
            i += 1;
        }
        proof {
            lemma_spec_find(self@, id);
        }
        None
    }

    fn get_by_id(&self, id: u32) -> (r: Option<DnsRecord>) {
        let n = self.len();
        let mut i: usize = 0;
        while i < n
            invariant
                n == self@.len(),
                i <= n,
                forall|j: int| 0 <= j < i ==> self@[j].id != id,
            decreases n - i,
        {
            if self[i].id == id {
                proof {
                    lemma_spec_find(self@, id);
                }
                return Some(self[i].duplicate());
            }
            i += 1;
        }
        proof {
            lemma_spec_find(self@, id);
        }
        None
    }

    fn get_by_name(&self, name: String) -> (out: Vec<DnsRecord>) {
        let n = self.len();
        let mut out: Vec<DnsRecord> = Vec::new();
        let mut i: usize = 0;
        while i < n
            invariant
                n == self@.len(),
                i <= n,
                out@ == self@.take(i as int).filter(sel_name(name@)),
            decreases n - i,
        {
            proof {
                assert(self@.take(i as int + 1) =~= self@.take(i as int).push(self@[i as int]));
                lemma_filter_push(self@.take(i as int), self@[i as int], sel_name(name@));
            }
            if self[i].name == name {
                out.push(self[i].duplicate());
            }
            i += 1;
        }
        proof {
            assert(self@.take(n as int) =~= self@);
        }
        out
    }

    fn get_by_description(&self, description: String) -> (out: Vec<DnsRecord>) {
        let n = self.len();
        let mut out: Vec<DnsRecord> = Vec::new();
        let mut i: usize = 0;
        while i < n
            invariant
                n == self@.len(),
                i <= n,
                out@ == self@.take(i as int).filter(sel_description(description@)),
            decreases n - i,
        {
            proof {
                assert(self@.take(i as int + 1) =~= self@.take(i as int).push(self@[i as int]));
                lemma_filter_push(
                    self@.take(i as int),
                    self@[i as int],
                    sel_description(description@),
                );
            }
            if crate::matching::str_contains(self[i].description.as_str(), description.as_str()) {
                out.push(self[i].duplicate());
            }
            i += 1;
        }
        proof {
            assert(self@.take(n as int) =~= self@);
        }
        out
    }

    fn get_by_creator(&self, creator: ActorId) -> (out: Vec<DnsRecord>) {
        let n = self.len();
        let mut out: Vec<DnsRecord> = Vec::new();
        let mut i: usize = 0;
        while i < n
            invariant
                n == self@.len(),
                i <= n,
                out@ == self@.take(i as int).filter(sel_creator(creator)),
            decreases n - i,
        {
            proof {
                assert(self@.take(i as int + 1) =~= self@.take(i as int).push(self@[i as int]));
                lemma_filter_push(self@.take(i as int), self@[i as int], sel_creator(creator));
            }
            if self[i].created_by.equals(&creator) {
                out.push(self[i].duplicate());
            }
            i += 1;
        }
        proof {
            assert(self@.take(n as int) =~= self@);
        }
        out
    }

    fn get_by_pattern(&self, pattern: String) -> (out: Vec<DnsRecord>) {
        let n = self.len();
        let mut out: Vec<DnsRecord> = Vec::new();
        let mut i: usize = 0;
        while i < n
            invariant
                n == self@.len(),
                i <= n,
                out@ == self@.take(i as int).filter(sel_pattern(pattern@)),
            decreases n - i,
        {
            proof {
                assert(self@.take(i as int + 1) =~= self@.take(i as int).push(self@[i as int]));
                lemma_filter_push(self@.take(i as int), self@[i as int], sel_pattern(pattern@));
            }
            if crate::matching::str_contains(self[i].name.as_str(), pattern.as_str())
                || crate::matching::str_contains(self[i].description.as_str(), pattern.as_str()) {
                out.push(self[i].duplicate());
            }
            i += 1;
        }
        proof {
            assert(self@.take(n as int) =~= self@);
        }
        out
    }
}

} // verus!
