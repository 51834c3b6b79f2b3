//! Lookups the user made, kept by channel and time.

use crate::clock::now_millis;
use crate::error::RecordError;
use crate::keys::{family_key, history_name, Family};
use crate::kv::{is_family_listing, Store};
use crate::model::{QueryHistory, QueryHistoryView};
use crate::rows::{query_bytes, query_fields, query_of_bytes};
use crate::wire::fields_fit;
use crate::text::{push_char, push_decimal};
use vstd::prelude::*;
use vstd::string::*;

verus! {

/// The views of a list of lookups.
pub open spec fn queries_view(qs: Seq<QueryHistory>) -> Seq<QueryHistoryView> {
    Seq::new(qs.len(), |i: int| qs[i]@)
}

/// The key of the lookup of `url` made at `at`.
pub open spec fn query_key(url: Seq<char>, at: int) -> Seq<char> {
    family_key(Family::QueryHistory, history_name(url, at))
}

/// The lookups among the listed entries, in the reverse of the order of the
/// listing; entries that cannot be read are left out.
pub open spec fn listed_queries(listing: Seq<(String, Vec<u8>)>) -> Seq<QueryHistoryView>
    decreases listing.len(),
{
    if listing.len() == 0 {
        Seq::empty()
    } else {
        let rest = listed_queries(listing.drop_first());
        match query_of_bytes(listing[0].1@) {
            Some(q) => rest.push(q),
            None => rest,
        }
    }
}

/// Stores a lookup as made at time `now`.
pub fn add_at(store: &mut Store, history: &QueryHistory, now: i64) -> (r: Result<(), RecordError>)
    ensures
        match r {
            Ok(()) => final(store)@ == old(store)@.insert(
                query_key(history@.url, now as int),
                query_bytes(history@),
            ),
            Err(e) => e.is_backend(),
        },
        fields_fit(query_fields(history@)),
{
    let mut key = Family::QueryHistory.key(history.url.as_str());
    push_char(&mut key, ':');
    push_decimal(&mut key, now);
    assert(key@ =~= query_key(history@.url, now as int));
    let value = history.to_bytes();
    store.write(key.as_str(), value.as_slice())
}

/// Stores a lookup as made now.
pub fn add(store: &mut Store, history: &QueryHistory) -> (r: Result<(), RecordError>)
    ensures
        match r {
            Ok(()) => exists|now: i64|
                now >= 0 && final(store)@ == old(store)@.insert(
                    query_key(history@.url, now as int),
                    query_bytes(history@),
                ),
            Err(e) => e.is_backend(),
        },
        fields_fit(query_fields(history@)),
{
    let now = now_millis();
    let r = add_at(store, history, now);
    if r.is_ok() {
        assert(now >= 0 && store@ == old(store)@.insert(
            query_key(history@.url, now as int),
            query_bytes(history@),
        ));
    }
    r
}

/// All lookups, in descending order of their keys.
pub fn get_all(store: &Store) -> (r: Result<Vec<QueryHistory>, RecordError>)
    ensures
        match r {
            Ok(queries) => exists|listing: Seq<(String, Vec<u8>)>|
                is_family_listing(store@, Family::QueryHistory, listing) && queries_view(queries@)
                    == listed_queries(listing),
            Err(e) => e.is_backend(),
        },
{
    let listing = match store.scan(Family::QueryHistory) {
        Ok(x) => x,
        Err(e) => {
            return Err(e);
        },
    };
    let mut queries: Vec<QueryHistory> = Vec::new();
    let mut i: usize = listing.len();
    assert(listing@.subrange(i as int, listing@.len() as int) =~= Seq::empty());
    assert(queries_view(queries@) =~= listed_queries(
        listing@.subrange(i as int, listing@.len() as int),
    ));
    while i > 0
        invariant
            i <= listing@.len(),
            queries_view(queries@) == listed_queries(
                listing@.subrange(i as int, listing@.len() as int),
            ),
        decreases i,
    {
        i -= 1;
        let found = QueryHistory::from_bytes(listing[i].1.as_slice());
        proof {
            let now = listing@.subrange(i as int, listing@.len() as int);
            assert(now.drop_first() =~= listing@.subrange(i + 1, listing@.len() as int));
            assert(now[0] == listing@[i as int]);
        }
        match found {
            Some(q) => {
                assert(queries_view(queries@.push(q)) =~= queries_view(queries@).push(q@));
                queries.push(q);
            },
            None => {},
        }
    }
    assert(listing@.subrange(0, listing@.len() as int) =~= listing@);
    Ok(queries)
}

} // verus!
