//! The durable tables underneath the store: `redb` tables from string keys to
//! byte strings. The functions in this file are trusted: each runs one `redb`
//! transaction on the table that it is given the name of, and its contract
//! records what `redb` documents of it.

use crate::keys::{key_le, key_lt};
use redb::ReadableTable;
use vstd::prelude::*;

verus! {

#[verifier::external_type_specification]
#[verifier::external_body]
pub struct ExDatabase(redb::Database);

#[verifier::external_type_specification]
#[verifier::external_body]
pub struct ExBackendError(redb::Error);

/// What the table named `table` of a database holds: the value stored under
/// each key, as the holder of the database sees it between transactions. A
/// table that was never created holds nothing.
pub uninterp spec fn table_entries(db: redb::Database, table: Seq<char>) -> Map<
    Seq<char>,
    Seq<u8>,
>;

/// `listing` is the part of `entries` whose keys lie in `[lo, hi)`, in
/// ascending key order.
pub open spec fn is_range_listing(
    entries: Map<Seq<char>, Seq<u8>>,
    lo: Seq<char>,
    hi: Seq<char>,
    listing: Seq<(String, Vec<u8>)>,
) -> bool {
    &&& forall|i: int|
        0 <= i < listing.len() ==> {
            &&& entries.contains_key(#[trigger] listing[i].0@)
            &&& entries[listing[i].0@] == listing[i].1@
            &&& key_le(lo, listing[i].0@)
            &&& key_lt(listing[i].0@, hi)
        }
    &&& forall|i: int, j: int|
        0 <= i < j < listing.len() ==> key_lt(#[trigger] listing[i].0@, #[trigger] listing[j].0@)
    &&& forall|k: Seq<char>|
        #![trigger entries.contains_key(k)]
        entries.contains_key(k) && key_le(lo, k) && key_lt(k, hi) ==> exists|i: int|
            0 <= i < listing.len() && #[trigger] listing[i].0@ == k
}

/// Creates the table if the database does not have it yet.
///
/// Trusted: makes the `TableDefinition` of the name, which must not be empty,
/// opens a write transaction with `Database::begin_write`, opens the
/// table with `WriteTransaction::open_table`, which creates a missing table
/// and leaves an existing one as it is, and commits. On success no entry has
/// changed.
#[verifier::external_body]
pub(crate) fn ensure_table(db: &mut redb::Database, table: &str) -> (r: Result<(), redb::Error>)
    requires
        table@.len() > 0,
    ensures
        r is Ok ==> table_entries(*final(db), table@) == table_entries(*old(db), table@),
{
    let table: redb::TableDefinition<&str, &[u8]> = redb::TableDefinition::new(table);
    let txn = db.begin_write()?;
    {
        let _table = txn.open_table(table)?;
    }
    txn.commit()?;
    Ok(())
}

/// Reads the value stored under `key`.
///
/// Trusted: opens a read transaction with `Database::begin_read` and calls
/// `ReadableTable::get`, which returns the value of the key if the key is
/// present and nothing otherwise.
#[verifier::external_body]
pub(crate) fn read_entry(db: &redb::Database, table: &str, key: &str) -> (r: Result<
    Option<Vec<u8>>,
    redb::Error,
>)
    requires
        table@.len() > 0,
    ensures
        r matches Ok(found) ==> match found {
            Some(value) => table_entries(*db, table@).contains_key(key@) && table_entries(
                *db,
                table@,
            )[key@] == value@,
            None => !table_entries(*db, table@).contains_key(key@),
        },
{
    let table: redb::TableDefinition<&str, &[u8]> = redb::TableDefinition::new(table);
    let txn = db.begin_read()?;
    let table = txn.open_table(table)?;
    let found = table.get(key)?;
    Ok(found.map(|guard| guard.value().to_vec()))
}

/// Lists the entries whose keys lie in `[lo, hi)`.
///
/// Trusted: opens a read transaction and calls `ReadableTable::range` with the
/// half-open range `lo..hi`. `redb` orders string keys as `str` does, that is
/// by code point, walks the range in ascending order and yields every entry in
/// it once; an empty or inverted range yields nothing.
#[verifier::external_body]
pub(crate) fn list_range(db: &redb::Database, table: &str, lo: &str, hi: &str) -> (r: Result<
    Vec<(String, Vec<u8>)>,
    redb::Error,
>)
    requires
        table@.len() > 0,
    ensures
        r matches Ok(listing) ==> is_range_listing(
            table_entries(*db, table@),
            lo@,
            hi@,
            listing@,
        ),
{
    let table: redb::TableDefinition<&str, &[u8]> = redb::TableDefinition::new(table);
    let txn = db.begin_read()?;
    let table = txn.open_table(table)?;
    let mut listing = Vec::new();
    for entry in table.range(lo..hi)? {
        let (key, value) = entry?;
        listing.push((key.value().to_string(), value.value().to_vec()));
    }
    Ok(listing)
}

/// Stores `value` under `key`, replacing what was there.
///
/// Trusted: one write transaction that calls `Table::insert` and commits.
/// `insert` replaces the value of a present key; a committed transaction makes
/// its writes visible to every later transaction.
#[verifier::external_body]
pub(crate) fn write_entry(db: &mut redb::Database, table: &str, key: &str, value: &[u8]) -> (r:
    Result<(), redb::Error>)
    requires
        table@.len() > 0,
    ensures
        r is Ok ==> table_entries(*final(db), table@) == table_entries(*old(db), table@).insert(
            key@,
            value@,
        ),
{
    let table: redb::TableDefinition<&str, &[u8]> = redb::TableDefinition::new(table);
    let txn = db.begin_write()?;
    {
        let mut table = txn.open_table(table)?;
        table.insert(key, value)?;
    }
    txn.commit()?;
    Ok(())
}

/// Removes the entry of `key`, if there is one.
///
/// Trusted: one write transaction that calls `Table::remove` and commits.
#[verifier::external_body]
pub(crate) fn erase_entry(db: &mut redb::Database, table: &str, key: &str) -> (r: Result<
    (),
    redb::Error,
>)
    requires
        table@.len() > 0,
    ensures
        r is Ok ==> table_entries(*final(db), table@) == table_entries(*old(db), table@).remove(
            key@,
        ),
{
    let table: redb::TableDefinition<&str, &[u8]> = redb::TableDefinition::new(table);
    let txn = db.begin_write()?;
    {
        let mut table = txn.open_table(table)?;
        table.remove(key)?;
    }
    txn.commit()?;
    Ok(())
}

/// Stores two entries as one unit: either both are stored or neither.
///
/// Trusted: one write transaction that calls `Table::insert` twice, first for
/// `key_a`, then for `key_b`, and commits.
#[verifier::external_body]
pub(crate) fn write_pair(
    db: &mut redb::Database,
    table: &str,
    key_a: &str,
    value_a: &[u8],
    key_b: &str,
    value_b: &[u8],
) -> (r: Result<(), redb::Error>)
    requires
        table@.len() > 0,
    ensures
        r is Ok ==> table_entries(*final(db), table@) == table_entries(*old(db), table@).insert(
            key_a@,
            value_a@,
        ).insert(key_b@, value_b@),
{
    let table: redb::TableDefinition<&str, &[u8]> = redb::TableDefinition::new(table);
    let txn = db.begin_write()?;
    {
        let mut table = txn.open_table(table)?;
        table.insert(key_a, value_a)?;
        table.insert(key_b, value_b)?;
    }
    txn.commit()?;
    Ok(())
}

/// Removes one entry and stores another as one unit.
///
/// Trusted: one write transaction that calls `Table::remove` for `gone`, then
/// `Table::insert` for `key`, and commits.
#[verifier::external_body]
pub(crate) fn erase_and_write(
    db: &mut redb::Database,
    table: &str,
    gone: &str,
    key: &str,
    value: &[u8],
) -> (r: Result<(), redb::Error>)
    requires
        table@.len() > 0,
    ensures
        r is Ok ==> table_entries(*final(db), table@) == table_entries(*old(db), table@).remove(
            gone@,
        ).insert(key@, value@),
{
    let table: redb::TableDefinition<&str, &[u8]> = redb::TableDefinition::new(table);
    let txn = db.begin_write()?;
    {
        let mut table = txn.open_table(table)?;
        table.remove(gone)?;
        table.insert(key, value)?;
    }
    txn.commit()?;
    Ok(())
}

/// The message of a backend error.
///
/// Trusted: formats the error with its `Display` impl; nothing is claimed of
/// the text.
#[verifier::external_body]
pub(crate) fn error_text(e: &redb::Error) -> String {
    format!("{}", e)
}

} // verus!
