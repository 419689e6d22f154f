//! The two stateless dispatch surfaces: `handle` routes a mutating request
//! to the store, `meta_state` answers a read-only inspection request. Each
//! invocation is one request, one store operation, one reply; the
//! surrounding runtime decodes requests, supplies the caller's identity,
//! and encodes replies.

use vstd::prelude::*;

use crate::io::{ActorId, DnsAction, DnsRecord, DnsReply, QueryAction, QueryResult};
use crate::store::{
    Dns, new_record, spec_get_by_creator, spec_get_by_description, spec_get_by_id,
    spec_get_by_name, spec_get_by_pattern, spec_register, spec_remove, spec_update,
};

verus! {

/// Copies of all records, in store order.
fn all_records(records: &Vec<DnsRecord>) -> (out: Vec<DnsRecord>)
    ensures
        out@ == records@,
{
    let n = records.len();
    let mut out: Vec<DnsRecord> = Vec::new();
    let mut i: usize = 0;
    while i < n
        invariant
            n == records@.len(),
            i <= n,
            out@ == records@.take(i as int),
        decreases n - i,
    {
        out.push(records[i].duplicate());
        proof {
            assert(records@.take(i as int + 1) =~= records@.take(i as int).push(
                records@[i as int],
            ));
        }
        i += 1;
    }
    proof {
        assert(records@.take(n as int) =~= records@);
    }
    out
}

/// Route one mutating request: dispatch it to the matching store operation
/// and wrap the outcome as a reply. Single-record outcomes become `Record`,
/// list outcomes become `Records`; only `Register`, `Remove` and `Update`
/// touch the store.
pub fn handle(records: &mut Vec<DnsRecord>, caller: ActorId, action: DnsAction) -> (reply:
    DnsReply)
    requires
        action is Register ==> old(records)@.len() < u32::MAX,
    ensures
        ({
            let s0 = old(records)@;
            match action {
                DnsAction::Register { name, link, description } => {
                    &&& final(records)@ == spec_register(s0, caller, name, link, description)
                    &&& reply == DnsReply::Record(
                        Some(new_record(s0, caller, name, link, description)),
                    )
                },
                DnsAction::Remove(id) => {
                    &&& final(records)@ == spec_remove(s0, caller, id).0
                    &&& reply == DnsReply::Record(spec_remove(s0, caller, id).1)
                },
                DnsAction::Update { id, name, link, description } => {
                    &&& final(records)@ == spec_update(s0, caller, id, name, link, description).0
                    &&& reply == DnsReply::Record(
                        spec_update(s0, caller, id, name, link, description).1,
                    )
                },
                DnsAction::GetById(id) => {
                    &&& final(records)@ == s0
                    &&& reply == DnsReply::Record(spec_get_by_id(s0, id))
                },
                DnsAction::GetByName(name) => {
                    &&& final(records)@ == s0
                    &&& (reply matches DnsReply::Records(rs) && rs@ == spec_get_by_name(
                        s0,
                        name@,
                    ))
                },
                DnsAction::GetByDescription(description) => {
                    &&& final(records)@ == s0
                    &&& (reply matches DnsReply::Records(rs) && rs@ == spec_get_by_description(
                        s0,
                        description@,
                    ))
                },
            }
        }),
{
    match action {
        DnsAction::Register { name, link, description } => DnsReply::Record(
            Some(records.add_record(caller, name, link, description)),
        ),
        DnsAction::Remove(id) => DnsReply::Record(records.remove_record(caller, id)),
        DnsAction::Update { id, name, link, description } => DnsReply::Record(
            records.update_record(caller, id, name, link, description),
        ),
        DnsAction::GetById(id) => DnsReply::Record(records.get_by_id(id)),
        DnsAction::GetByName(name) => DnsReply::Records(records.get_by_name(name)),
        DnsAction::GetByDescription(description) => DnsReply::Records(
            records.get_by_description(description),
        ),
    }
}

/// Answer one read-only inspection request. The store is never changed;
/// `GetAll` returns every record in current store order.
pub fn meta_state(records: &Vec<DnsRecord>, action: QueryAction) -> (result: QueryResult)
    ensures
        ({
            let s = records@;
            match action {
                QueryAction::GetAll => (result matches QueryResult::Records(rs) && rs@ == s),
                QueryAction::GetById(id) => result == QueryResult::Record(spec_get_by_id(s, id)),
                QueryAction::GetByName(name) => (result matches QueryResult::Records(rs) && rs@
                    == spec_get_by_name(s, name@)),
                QueryAction::GetByCreator(actor) => (result matches QueryResult::Records(rs)
                    && rs@ == spec_get_by_creator(s, actor)),
                QueryAction::GetByDescription(description) => (result
                    matches QueryResult::Records(rs) && rs@ == spec_get_by_description(
                    s,
                    description@,
                )),
                QueryAction::GetByPattern(pattern) => (result matches QueryResult::Records(rs)
                    && rs@ == spec_get_by_pattern(s, pattern@)),
            }
        }),
{
    match action {
        QueryAction::GetAll => QueryResult::Records(all_records(records)),
        QueryAction::GetById(id) => QueryResult::Record(records.get_by_id(id)),
        QueryAction::GetByName(name) => QueryResult::Records(records.get_by_name(name)),
        QueryAction::GetByCreator(actor) => QueryResult::Records(records.get_by_creator(actor)),
        QueryAction::GetByDescription(description) => QueryResult::Records(
            records.get_by_description(description),
        ),
        QueryAction::GetByPattern(pattern) => QueryResult::Records(
            records.get_by_pattern(pattern),
        ),
    }
}

} // verus!
