//! The requests that the composite stream operations issue: a blocking read
//! of one new entry for a consumer, whether ensuring a consumer group must
//! create it, and the claim of the oldest pending entry.
use vstd::prelude::*;
use crate::reply::{entry_id_of, get_id, group_listed_in, is_exist_group_name};

verus! {

/// How many entries a group read asks for.
pub const READ_COUNT: usize = 1;

/// How long, in milliseconds, a group read waits for a new entry.
pub const READ_BLOCK_MS: usize = 3000;

/// The idle time, in milliseconds, that a claim sets on what it takes over.
pub const CLAIM_IDLE_MS: usize = 60000;

/// The delivery time, in milliseconds, that a claim sets on what it takes over.
pub const CLAIM_TIME_MS: usize = 60000;

/// A read of new entries of one stream on behalf of a consumer of a group.
pub struct ReadGroupRequest {
    pub key: String,
    pub group: String,
    pub consumer: String,
    /// The id to read after; `>` asks for entries never delivered to the group.
    pub start_id: String,
    pub count: usize,
    pub block_ms: usize,
}

/// A claim of pending entries of a group on behalf of a consumer.
pub struct ClaimRequest {
    pub ids: Vec<String>,
    pub idle_ms: usize,
    pub time_ms: usize,
}

/// The read that hands `consumer` one entry of `key` never delivered to
/// `group`, waiting up to three seconds for one to arrive.
pub fn read_group_request(key: &str, group: &str, consumer: &str) -> (r: ReadGroupRequest)
    ensures
        r.key@ == key@,
        r.group@ == group@,
        r.consumer@ == consumer@,
        r.start_id@ == seq!['>'],
        r.count == 1,
        r.block_ms == 3000,
{
    proof {
        reveal_strlit(">");
    }
    ReadGroupRequest {
        key: key.to_owned(),
        group: group.to_owned(),
        consumer: consumer.to_owned(),
        start_id: ">".to_owned(),
        count: READ_COUNT,
        block_ms: READ_BLOCK_MS,
    }
}

/// Whether ensuring `group` must create it, given the stream's group
/// listing: exactly when the listing does not name it.
pub fn needs_group_creation(groups: &redis::Value, group: &str) -> (r: Result<bool, redis::RedisError>)
    ensures
        match r {
            Ok(b) => group_listed_in(*groups, group@) == Some(!b),
            Err(_) => group_listed_in(*groups, group@) is None,
        },
{
    let listed = is_exist_group_name(groups, group)?;
    Ok(!listed)
}

/// The claim of the oldest pending entry that a pending-range reply names:
/// `None` where it names none, and an error where the reply cannot be read.
pub fn claim_oldest_request(pending: &redis::Value) -> (r: Result<Option<ClaimRequest>, redis::RedisError>)
    ensures
        match r {
            Err(_) => entry_id_of(*pending) is None,
            Ok(None) => entry_id_of(*pending) == Some(Seq::<char>::empty()),
            Ok(Some(c)) => {
                &&& entry_id_of(*pending) is Some
                &&& entry_id_of(*pending).unwrap().len() > 0
                &&& c.ids@.len() == 1
                &&& c.ids@[0]@ == entry_id_of(*pending).unwrap()
                &&& c.idle_ms == 60000
                &&& c.time_ms == 60000
            },
        },
{
    let id = get_id(pending)?;
    if id.as_str().is_empty() {
        return Ok(None);
    }
    let ids = vec![id];
    Ok(Some(ClaimRequest { ids, idle_ms: CLAIM_IDLE_MS, time_ms: CLAIM_TIME_MS }))
}

} // verus!
