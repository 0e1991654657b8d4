//! Decoding of the store's replies: the shapes that the stream commands
//! answer with, and the two lookups built on them (the id of the oldest
//! pending entry, and whether a consumer group is listed).
use vstd::prelude::*;
use vstd::utf8::{decode_utf8, encode_utf8, encode_utf8_decode_utf8, encode_utf8_valid_utf8, valid_utf8};

verus! {

#[verifier::external_type_specification]
pub struct ExValue(redis::Value);

#[verifier::external_type_specification]
#[verifier::external_body]
pub struct ExRedisError(redis::RedisError);

/// The text that a reply holds when read as a string: binary data that is
/// valid UTF-8, a status line, or the status `OK`.
pub open spec fn text_of(v: redis::Value) -> Option<Seq<char>> {
    match v {
        redis::Value::Data(bytes) => if valid_utf8(bytes@) {
            Some(decode_utf8(bytes@))
        } else {
            None
        },
        redis::Value::Okay => Some(seq!['O', 'K']),
        redis::Value::Status(s) => Some(s@),
        _ => None,
    }
}

/// A reply read as a list of replies: nil is the empty list, binary data a
/// list of itself alone, and a bulk reply its items.
pub open spec fn list_of(v: redis::Value) -> Option<Seq<redis::Value>> {
    match v {
        redis::Value::Nil => Some(Seq::empty()),
        redis::Value::Data(bytes) => Some(seq![redis::Value::Data(bytes)]),
        redis::Value::Bulk(items) => Some(items@),
        _ => None,
    }
}

/// A reply read as a list of rows, each row a list of replies.
pub open spec fn rows_of(v: redis::Value) -> Option<Seq<Seq<redis::Value>>> {
    match v {
        redis::Value::Nil => Some(Seq::empty()),
        redis::Value::Data(bytes) => Some(seq![seq![redis::Value::Data(bytes)]]),
        redis::Value::Bulk(items) => if forall|i: int|
            0 <= i < items@.len() ==> (#[trigger] list_of(items@[i])) is Some {
            Some(items@.map_values(|x: redis::Value| list_of(x).unwrap()))
        } else {
            None
        },
        _ => None,
    }
}

/// The rows of a decoded reply, each seen as a sequence.
pub open spec fn rows_view(rows: Seq<Vec<redis::Value>>) -> Seq<Seq<redis::Value>> {
    rows.map_values(|r: Vec<redis::Value>| r@)
}

/// Relies on redis::from_redis_value::<Vec<Vec<Value>>>: nil gives no rows,
/// binary data one row of itself, a bulk reply one row per item (each item
/// read as a list), and any other reply, or an item of another kind, an error.
#[verifier::external_body]
fn decode_rows(v: &redis::Value) -> (r: Result<Vec<Vec<redis::Value>>, redis::RedisError>)
    ensures
        match r {
            Ok(rows) => rows_of(*v) == Some(rows_view(rows@)),
            Err(_) => rows_of(*v) is None,
        },
{
    redis::from_redis_value::<Vec<Vec<redis::Value>>>(v)
}

/// Relies on redis::from_redis_value::<String>: binary data is decoded as
/// UTF-8 (an error where it is not valid), a status gives its text, `OK`
/// gives "OK", and any other reply is an error.
#[verifier::external_body]
fn decode_text(v: &redis::Value) -> (r: Result<String, redis::RedisError>)
    ensures
        match r {
            Ok(s) => text_of(*v) == Some(s@),
            Err(_) => text_of(*v) is None,
        },
{
    redis::from_redis_value::<String>(v)
}

/// Relies on redis's `From<(ErrorKind, &'static str)>` for `RedisError`: the
/// error reported for a group record that carries no readable name.
#[verifier::external_body]
fn nameless_group_error() -> (e: redis::RedisError) {
    redis::RedisError::from((redis::ErrorKind::TypeError, "group record without a readable name"))
}

/// Reads a reply as a string, as the value of a key is read.
pub fn read_string(v: &redis::Value) -> (r: Result<String, redis::RedisError>)
    ensures
        match r {
            Ok(s) => text_of(*v) == Some(s@),
            Err(_) => text_of(*v) is None,
        },
{
    decode_text(v)
}

/// Text stored as its UTF-8 bytes reads back as the same text, whatever
/// characters it holds.
pub proof fn lemma_text_round_trip(bytes: Vec<u8>, s: Seq<char>)
    requires
        bytes@ == encode_utf8(s),
    ensures
        text_of(redis::Value::Data(bytes)) == Some(s),
{
    encode_utf8_valid_utf8(s);
    encode_utf8_decode_utf8(s);
}

/// The id that a pending-range reply names first: `None` where the reply
/// is not a list of rows or its first cell is not text, the empty text where
/// there is no row or the first row is empty.
pub open spec fn entry_id_of(v: redis::Value) -> Option<Seq<char>> {
    match rows_of(v) {
        None => None,
        Some(rows) => if rows.len() > 0 && rows[0].len() > 0 {
            text_of(rows[0][0])
        } else {
            Some(Seq::empty())
        },
    }
}

/// Reads the id of the first entry of a pending-range reply; an empty
/// string where the reply lists no entry.
pub fn get_id(data: &redis::Value) -> (r: Result<String, redis::RedisError>)
    ensures
        match r {
            Ok(id) => entry_id_of(*data) == Some(id@),
            Err(_) => entry_id_of(*data) is None,
        },
{
    let rows = decode_rows(data)?;
    proof {
        assert(rows_view(rows@).len() == rows@.len());
    }
    if rows.len() > 0 {
        let row = &rows[0];
        assert(rows_view(rows@)[0] == row@);
        if row.len() > 0 {
            return decode_text(&row[0]);
        }
    }
    Ok(String::new())
}

/// A pending-range reply with no entry names the empty id; one whose first
/// entry starts with the UTF-8 bytes of an id names that id.
pub proof fn lemma_oldest_pending_id(pending: redis::Value, bytes: Vec<u8>, id: Seq<char>)
    requires
        rows_of(pending) is Some,
        rows_of(pending).unwrap().len() > 0 ==> {
            &&& rows_of(pending).unwrap()[0].len() > 0
            &&& rows_of(pending).unwrap()[0][0] == redis::Value::Data(bytes)
            &&& bytes@ == encode_utf8(id)
        },
    ensures
        rows_of(pending).unwrap().len() == 0 ==> entry_id_of(pending) == Some(Seq::<char>::empty()),
        rows_of(pending).unwrap().len() > 0 ==> entry_id_of(pending) == Some(id),
{
    if rows_of(pending).unwrap().len() > 0 {
        lemma_text_round_trip(bytes, id);
    }
}

/// The name that a group record carries in its second field, where that
/// field reads as text.
pub open spec fn record_name(record: Seq<redis::Value>) -> Option<Seq<char>> {
    if record.len() > 1 {
        text_of(record[1])
    } else {
        None
    }
}

/// Whether `group` is named by one of `records`, read in order: `None` where
/// a record without a readable name comes before the first match.
pub open spec fn group_listed(records: Seq<Seq<redis::Value>>, group: Seq<char>) -> Option<bool>
    decreases records.len(),
{
    if records.len() == 0 {
        Some(false)
    } else {
        match record_name(records[0]) {
            None => None,
            Some(name) => if name == group {
                Some(true)
            } else {
                group_listed(records.drop_first(), group)
            },
        }
    }
}

/// Every record of a listing carries a readable name.
pub open spec fn records_named(records: Seq<Seq<redis::Value>>) -> bool {
    forall|i: int| 0 <= i < records.len() ==> (#[trigger] record_name(records[i])) is Some
}

/// Some record of a listing is named `group`.
pub open spec fn names_group(records: Seq<Seq<redis::Value>>, group: Seq<char>) -> bool {
    exists|i: int| 0 <= i < records.len() && #[trigger] record_name(records[i]) == Some(group)
}

/// In a listing whose records all carry a readable name, a group is found
/// exactly when one of the records names it.
pub proof fn lemma_group_found_iff_named(records: Seq<Seq<redis::Value>>, group: Seq<char>)
    requires
        records_named(records),
    ensures
        group_listed(records, group) == Some(names_group(records, group)),
    decreases records.len(),
{
    if records.len() > 0 {
        let rest = records.drop_first();
        assert(record_name(records[0]) is Some);
        assert forall|i: int| 0 <= i < rest.len() implies (#[trigger] record_name(rest[i])) is Some by {
            assert(rest[i] == records[i + 1]);
        }
        lemma_group_found_iff_named(rest, group);
        if record_name(records[0]) == Some(group) {
            assert(names_group(records, group));
        } else if names_group(records, group) {
            let i = choose|i: int| 0 <= i < records.len() && #[trigger] record_name(records[i]) == Some(group);
            assert(i > 0);
            assert(rest[i - 1] == records[i]);
            assert(names_group(rest, group));
        } else if names_group(rest, group) {
            let j = choose|j: int| 0 <= j < rest.len() && #[trigger] record_name(rest[j]) == Some(group);
            assert(rest[j] == records[j + 1]);
        }
    }
}

/// Ensuring a group a second time creates nothing: once the group has been
/// created, the listing names it, the lookup finds it, and no creation is
/// needed.
pub proof fn lemma_ensure_group_idempotent(groups: redis::Value, group: Seq<char>)
    requires
        rows_of(groups) is Some,
        records_named(rows_of(groups).unwrap()),
        names_group(rows_of(groups).unwrap(), group),
    ensures
        group_listed_in(groups, group) == Some(true),
{
    lemma_group_found_iff_named(rows_of(groups).unwrap(), group);
}

/// Whether a group-listing reply holds `group`: `None` where the reply is
/// not a list of records or a record before the first match has no
/// readable name.
pub open spec fn group_listed_in(groups: redis::Value, group: Seq<char>) -> Option<bool> {
    match rows_of(groups) {
        None => None,
        Some(records) => group_listed(records, group),
    }
}

/// Looks `group` up in a group-listing reply, comparing it with the second
/// field of each record.
pub fn is_exist_group_name(groups: &redis::Value, group: &str) -> (r: Result<bool, redis::RedisError>)
    ensures
        match r {
            Ok(b) => group_listed_in(*groups, group@) == Some(b),
            Err(_) => group_listed_in(*groups, group@) is None,
        },
{
    let records = decode_rows(groups)?;
    let ghost all = rows_view(records@);
    let wanted = group.to_owned();
    let mut i: usize = 0;
    assert(all.subrange(0, all.len() as int) =~= all);
    while i < records.len()
        invariant
            0 <= i <= records@.len(),
            all == rows_view(records@),
            rows_of(*groups) == Some(all),
            all.len() == records@.len(),
            wanted@ == group@,
            group_listed(all, group@) == group_listed(all.subrange(i as int, all.len() as int), group@),
        decreases records.len() - i,
    {
        let record = &records[i];
        let ghost rest = all.subrange(i as int, all.len() as int);
        assert(rest[0] == record@);
        assert(rest.drop_first() =~= all.subrange(i + 1, all.len() as int));
        if record.len() < 2 {
            assert(group_listed(rest, group@) is None);
            return Err(nameless_group_error());
        }
        let name = match decode_text(&record[1]) {
            Ok(name) => name,
            Err(_) => {
                assert(group_listed(rest, group@) is None);
                return Err(nameless_group_error());
            },
        };
        if name == wanted {
            return Ok(true);
        }
        i = i + 1;
    }
    assert(all.subrange(i as int, all.len() as int).len() == 0);
    Ok(false)
}

} // verus!
