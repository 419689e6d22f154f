//! The data model of the registry: records, caller identities, and the two
//! request/reply surfaces (a mutating one and a read-only query one).

use vstd::prelude::*;

verus! {

/// Opaque identity of a caller, as a fixed 32-byte token. It is compared only
/// for equality: the caller that created a record is the only one allowed to
/// update or remove it.
#[derive(Clone, Copy, Debug, PartialEq, Eq)]
#[verifier::ext_equal]
pub struct ActorId(pub [u8; 32]);

impl ActorId {
    /// Byte-for-byte equality of two caller identities.
    pub fn equals(&self, other: &ActorId) -> (r: bool)
        ensures
            r == (*self == *other),
    {
        let mut i: usize = 0;
        while i < 32
            invariant
                i <= 32,
                forall|j: int| 0 <= j < i ==> self.0[j] == other.0[j],
            decreases 32 - i,
        {
            if self.0[i] != other.0[i] {
                return false;
            }
            i += 1;
        }
        proof {
            assert(self.0 =~= other.0);
        }
        true
    }
}

/// A registry entry: a named link with a description, the id the store
/// assigned to it, and the identity of its creator.
#[derive(Debug)]
#[verifier::ext_equal]
pub struct DnsRecord {
    pub id: u32,
    pub name: String,
    pub link: String,
    pub description: String,
    pub created_by: ActorId,
}

impl DnsRecord {
    /// A copy of the record, equal to it in every field.
    pub fn duplicate(&self) -> (c: DnsRecord)
        ensures
            c == *self,
    {
        DnsRecord {
            id: self.id,
            name: self.name.clone(),
            link: self.link.clone(),
            description: self.description.clone(),
            created_by: self.created_by,
        }
    }
}

/// A request on the mutating surface.
#[derive(Debug)]
pub enum DnsAction {
    Register { name: String, link: String, description: String },
    Remove(u32),
    Update { id: u32, name: Option<String>, link: Option<String>, description: Option<String> },
    GetById(u32),
    GetByName(String),
    GetByDescription(String),
}

/// A reply on the mutating surface: a single (possibly absent) record, or a
/// list of records.
#[derive(Debug)]
pub enum DnsReply {
    Record(Option<DnsRecord>),
    Records(Vec<DnsRecord>),
}

/// A request on the read-only query surface.
#[derive(Debug)]
pub enum QueryAction {
    GetAll,
    GetById(u32),
    GetByName(String),
    GetByCreator(ActorId),
    GetByDescription(String),
    GetByPattern(String),
}

/// A reply on the read-only query surface.
#[derive(Debug)]
pub enum QueryResult {
    Record(Option<DnsRecord>),
    Records(Vec<DnsRecord>),
}

} // verus!
