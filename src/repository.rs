//! How driver records sit in the document store: one document per record under
//! `drivers:<id text>`, and a sorted index `drivers-idx` whose members are the
//! id texts, scored by the raw identifier so that rank order is creation order.
//! The store calls themselves are made by the caller; this module decides what
//! to ask for and what the answers mean.

use crate::entity::Driver;
use crate::id::{identifier_text, reads_as, Identifier, ID};
use vstd::prelude::*;
use vstd::string::*;

verus! {

/// The key of the sorted index of all records.
pub const INDEX_KEY: &'static str = "drivers-idx";

/// The prefix of each record's document key.
pub const DOCUMENT_PREFIX: &'static str = "drivers:";

/// Why the store could not answer.
#[derive(Debug, Clone)]
pub enum RepoError {
    /// No record has this identifier.
    NotFound(Identifier),
    /// The store failed, or what it holds does not read back; holds a description.
    Store(String),
}

/// The document key of the record whose index member is `member`.
pub open spec fn document_key_of(member: Seq<char>) -> Seq<char> {
    DOCUMENT_PREFIX@ + member
}

/// The member under which record `id` stands in the index.
pub fn index_member(id: &Identifier) -> (r: String)
    ensures
        identifier_text(id.0) == Some(r@),
{
    id.to_string()
}

/// The score of record `id` in the index: the raw identifier.
pub fn index_score(id: &Identifier) -> (r: i64)
    ensures
        r == id.0,
{
    id.value()
}

/// The document key of record `id`.
pub fn document_key(id: &Identifier) -> (r: String)
    ensures
        exists|t: Seq<char>| identifier_text(id.0) == Some(t) && r@ == document_key_of(t),
{
    let member = index_member(id);
    let r = String::from_str(DOCUMENT_PREFIX).concat(member.as_str());
    assert(identifier_text(id.0) == Some(member@) && r@ == document_key_of(member@));
    r
}

/// What to fetch after reading index members: nothing where the range held no
/// member, else the document key of each member, in the same order.
pub fn plan_fetch(members: &Vec<String>) -> (r: Option<Vec<String>>)
    ensures
        r is None <==> members@.len() == 0,
        r matches Some(keys) ==> keys@.len() == members@.len() && forall|i: int|
            0 <= i < members@.len() ==> #[trigger] keys@[i]@ == document_key_of(members@[i]@),
{
    if members.len() == 0 {
        return None;
    }
    let mut keys: Vec<String> = Vec::new();
    let mut i: usize = 0;
    while i < members.len()
        invariant
            i <= members@.len(),
            keys@.len() == i,
            forall|j: int| 0 <= j < i ==> #[trigger] keys@[j]@ == document_key_of(members@[j]@),
        decreases members@.len() - i,
    {
        keys.push(String::from_str(DOCUMENT_PREFIX).concat(members[i].as_str()));
        i += 1;
    }
    Some(keys)
}

/// Pairs each fetched record with the identifier its index member reads as, in
/// index order; where fewer records came back than members, the list ends with
/// the records. A member that reads as no identifier is a store error.
pub fn join_listing(members: &Vec<String>, drivers: Vec<Driver>) -> (r: Result<Vec<ID<Driver>>, RepoError>)
    ensures
        r matches Ok(list) ==> list@.len() == if members@.len() < drivers@.len() {
            members@.len()
        } else {
            drivers@.len()
        },
        r matches Ok(list) ==> forall|i: int|
            0 <= i < list@.len() ==> reads_as(members@[i]@, Some(#[trigger] list@[i].id)) && list@[i].entity@
                == drivers@[i]@,
        r is Err ==> exists|i: int|
            0 <= i < members@.len() && i < drivers@.len() && reads_as(#[trigger] members@[i]@, None),
{
    let n: usize = if members.len() < drivers.len() {
        members.len()
    } else {
        drivers.len()
    };
    let mut list: Vec<ID<Driver>> = Vec::new();
    let mut i: usize = 0;
    while i < n
        invariant
            n <= members@.len(),
            n <= drivers@.len(),
            i <= n,
            list@.len() == i,
            forall|j: int|
                0 <= j < i ==> reads_as(members@[j]@, Some(#[trigger] list@[j].id)) && list@[j].entity@
                    == drivers@[j]@,
        decreases n - i,
    {
        match Identifier::from_text(members[i].as_str()) {
            Some(id) => {
                list.push(ID { id, entity: drivers[i].clone() });
            },
            None => {
                return Err(RepoError::Store(String::from_str("index member is no identifier: ").concat(members[i].as_str())));
            },
        }
        i += 1;
    }
    Ok(list)
}

} // verus!
