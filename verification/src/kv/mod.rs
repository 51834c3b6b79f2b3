//! The persistent store: one durable table from keys to byte strings, read
//! and written in whole transactions. The table, not any state in memory,
//! decides which channels are being recorded.

pub mod backend;
pub mod config;
pub mod history;
pub mod live;
pub mod plan;
pub mod query_history;
pub mod recording;

use crate::error::{RecordError, StoreFault};
use crate::keys::{has_prefix, key_lt, lemma_key_lt_asymmetric, Family};
use crate::kv::backend::{
    ensure_table, erase_and_write, erase_entry, error_text, list_range, read_entry, table_entries,
    write_entry, write_pair,
};
use vstd::prelude::*;
use vstd::string::*;

verus! {

/// What a store holds: the bytes under each key.
pub type Entries = Map<Seq<char>, Seq<u8>>;

/// `listing` is the part of `entries` that belongs to family `f`, in
/// ascending key order.
pub open spec fn is_family_listing(
    entries: Entries,
    f: Family,
    listing: Seq<(String, Vec<u8>)>,
) -> bool {
    &&& forall|i: int|
        0 <= i < listing.len() ==> {
            &&& entries.contains_key(#[trigger] listing[i].0@)
            &&& entries[listing[i].0@] == listing[i].1@
            &&& has_prefix(listing[i].0@, f.spec_prefix())
        }
    &&& forall|i: int, j: int|
        0 <= i < j < listing.len() ==> key_lt(#[trigger] listing[i].0@, #[trigger] listing[j].0@)
    &&& forall|k: Seq<char>|
        #![trigger entries.contains_key(k)]
        entries.contains_key(k) && has_prefix(k, f.spec_prefix()) ==> exists|i: int|
            0 <= i < listing.len() && #[trigger] listing[i].0@ == k
}

/// A family has one listing: two listings of the same store name the same
/// keys with the same values in the same order.
pub proof fn lemma_listing_unique(
    entries: Entries,
    f: Family,
    a: Seq<(String, Vec<u8>)>,
    b: Seq<(String, Vec<u8>)>,
)
    requires
        is_family_listing(entries, f, a),
        is_family_listing(entries, f, b),
    ensures
        a.len() == b.len(),
        forall|i: int| 0 <= i < a.len() ==> (#[trigger] a[i]).0@ == b[i].0@ && a[i].1@ == b[i].1@,
    decreases a.len(),
{
    if a.len() == 0 {
        if b.len() > 0 {
            assert(entries.contains_key(b[0].0@));
            let i = choose|i: int| 0 <= i < a.len() && #[trigger] a[i].0@ == b[0].0@;
        }
    } else {
        let la = a.last();
        assert(a[a.len() - 1] == la);
        assert(entries.contains_key(la.0@));
        let j = choose|j: int| 0 <= j < b.len() && #[trigger] b[j].0@ == la.0@;
        let lb = b.last();
        assert(b[b.len() - 1] == lb);
        assert(entries.contains_key(lb.0@));
        let i = choose|i: int| 0 <= i < a.len() && #[trigger] a[i].0@ == lb.0@;
        lemma_key_lt_asymmetric(la.0@, lb.0@);
        if j < b.len() - 1 {
            assert(key_lt(b[j].0@, b[b.len() - 1].0@));
        }
        if i < a.len() - 1 {
            assert(key_lt(a[i].0@, a[a.len() - 1].0@));
        }
        assert(la.0@ == lb.0@);
        let rest = entries.remove(la.0@);
        let a1 = a.drop_last();
        let b1 = b.drop_last();
        assert(is_family_listing(rest, f, a1)) by {
            assert forall|k: int| 0 <= k < a1.len() implies rest.contains_key(
                #[trigger] a1[k].0@,
            ) && rest[a1[k].0@] == a1[k].1@ && has_prefix(a1[k].0@, f.spec_prefix()) by {
                assert(a1[k] == a[k]);
                assert(key_lt(a[k].0@, a[a.len() - 1].0@));
                lemma_key_lt_asymmetric(la.0@, la.0@);
            }
            assert forall|x: int, y: int| 0 <= x < y < a1.len() implies key_lt(
                #[trigger] a1[x].0@,
                #[trigger] a1[y].0@,
            ) by {
                assert(a1[x] == a[x] && a1[y] == a[y]);
            }
            assert forall|k: Seq<char>|
                #![trigger rest.contains_key(k)]
                rest.contains_key(k) && has_prefix(k, f.spec_prefix()) implies exists|x: int|
                0 <= x < a1.len() && #[trigger] a1[x].0@ == k by {
                assert(entries.contains_key(k));
                let x = choose|x: int| 0 <= x < a.len() && #[trigger] a[x].0@ == k;
                assert(a1[x] == a[x]);
            }
        }
        assert(is_family_listing(rest, f, b1)) by {
            assert forall|k: int| 0 <= k < b1.len() implies rest.contains_key(
                #[trigger] b1[k].0@,
            ) && rest[b1[k].0@] == b1[k].1@ && has_prefix(b1[k].0@, f.spec_prefix()) by {
                assert(b1[k] == b[k]);
                assert(key_lt(b[k].0@, b[b.len() - 1].0@));
                lemma_key_lt_asymmetric(lb.0@, lb.0@);
            }
            assert forall|x: int, y: int| 0 <= x < y < b1.len() implies key_lt(
                #[trigger] b1[x].0@,
                #[trigger] b1[y].0@,
            ) by {
                assert(b1[x] == b[x] && b1[y] == b[y]);
            }
            assert forall|k: Seq<char>|
                #![trigger rest.contains_key(k)]
                rest.contains_key(k) && has_prefix(k, f.spec_prefix()) implies exists|x: int|
                0 <= x < b1.len() && #[trigger] b1[x].0@ == k by {
                assert(entries.contains_key(k));
                let x = choose|x: int| 0 <= x < b.len() && #[trigger] b[x].0@ == k;
                assert(b1[x] == b[x]);
            }
        }
        lemma_listing_unique(rest, f, a1, b1);
        assert forall|k: int| 0 <= k < a.len() implies (#[trigger] a[k]).0@ == b[k].0@ && a[k].1@
            == b[k].1@ by {
            if k < a.len() - 1 {
                assert(a1[k] == a[k] && b1[k] == b[k]);
            }
        }
    }
}

/// The name of the table that the store keeps its entries in.
pub open spec fn table_name() -> Seq<char> {
    "liveship"@
}

/// The name of the table that the store keeps its entries in.
fn table() -> (t: &'static str)
    ensures
        t@ == table_name(),
        t@.len() > 0,
{
    proof {
        reveal_strlit("liveship");
    }
    "liveship"
}

/// The store.
pub struct Store {
    db: redb::Database,
}

impl View for Store {
    type V = Entries;

    closed spec fn view(&self) -> Entries {
        table_entries(self.db, table_name())
    }
}

fn backend_failure(e: redb::Error) -> (r: RecordError)
    ensures
        r.is_backend(),
{
    RecordError::StoreFailure(StoreFault::Backend(error_text(&e)))
}

impl Store {
    /// Takes charge of a database, creating the store's table if it is not
    /// there yet. The store holds what that table of the database held.
    pub fn new(db: redb::Database) -> (r: Result<Store, RecordError>)
        ensures
            match r {
                Ok(store) => store@ == table_entries(db, table_name()),
                Err(e) => e.is_backend(),
            },
    {
        let mut db = db;
        match ensure_table(&mut db, table()) {
            Ok(()) => Ok(Store { db }),
            Err(e) => Err(backend_failure(e)),
        }
    }

    /// The bytes stored under `key`, if any.
    pub fn read(&self, key: &str) -> (r: Result<Option<Vec<u8>>, RecordError>)
        ensures
            match r {
                Ok(Some(value)) => self@.contains_key(key@) && self@[key@] == value@,
                Ok(None) => !self@.contains_key(key@),
                Err(e) => e.is_backend(),
            },
    {
        match read_entry(&self.db, table(), key) {
            Ok(found) => Ok(found),
            Err(e) => Err(backend_failure(e)),
        }
    }

    /// The entries of a family, in ascending key order.
    pub fn scan(&self, f: Family) -> (r: Result<Vec<(String, Vec<u8>)>, RecordError>)
        ensures
            match r {
                Ok(listing) => is_family_listing(self@, f, listing@),
                Err(e) => e.is_backend(),
            },
    {
        match list_range(&self.db, table(), f.prefix(), f.end()) {
            Ok(listing) => {
                proof {
                    assert forall|i: int| 0 <= i < listing@.len() implies has_prefix(
                        #[trigger] listing@[i].0@,
                        f.spec_prefix(),
                    ) by {
                        f.lemma_scan_range(listing@[i].0@);
                    }
                    assert forall|k: Seq<char>|
                        #![trigger self@.contains_key(k)]
                        self@.contains_key(k) && has_prefix(k, f.spec_prefix()) implies exists|
                        i: int,
                    |
                        0 <= i < listing@.len() && #[trigger] listing@[i].0@ == k by {
                        f.lemma_scan_range(k);
                    }
                }
                Ok(listing)
            },
            Err(e) => Err(backend_failure(e)),
        }
    }

    /// Stores `value` under `key`.
    pub fn write(&mut self, key: &str, value: &[u8]) -> (r: Result<(), RecordError>)
        ensures
            match r {
                Ok(()) => final(self)@ == old(self)@.insert(key@, value@),
                Err(e) => e.is_backend(),
            },
    {
        match write_entry(&mut self.db, table(), key, value) {
            Ok(()) => Ok(()),
            Err(e) => Err(backend_failure(e)),
        }
    }

    /// Removes the entry of `key`, if there is one.
    pub fn erase(&mut self, key: &str) -> (r: Result<(), RecordError>)
        ensures
            match r {
                Ok(()) => final(self)@ == old(self)@.remove(key@),
                Err(e) => e.is_backend(),
            },
    {
        match erase_entry(&mut self.db, table(), key) {
            Ok(()) => Ok(()),
            Err(e) => Err(backend_failure(e)),
        }
    }

    /// Stores two entries in one transaction.
    pub fn write_both(
        &mut self,
        key_a: &str,
        value_a: &[u8],
        key_b: &str,
        value_b: &[u8],
    ) -> (r: Result<(), RecordError>)
        ensures
            match r {
                Ok(()) => final(self)@ == old(self)@.insert(key_a@, value_a@).insert(
                    key_b@,
                    value_b@,
                ),
                Err(e) => e.is_backend(),
            },
    {
        match write_pair(&mut self.db, table(), key_a, value_a, key_b, value_b) {
            Ok(()) => Ok(()),
            Err(e) => Err(backend_failure(e)),
        }
    }

    /// Removes one entry and stores another in one transaction.
    pub fn replace(&mut self, gone: &str, key: &str, value: &[u8]) -> (r: Result<(), RecordError>)
        ensures
            match r {
                Ok(()) => final(self)@ == old(self)@.remove(gone@).insert(key@, value@),
                Err(e) => e.is_backend(),
            },
    {
        match erase_and_write(&mut self.db, table(), gone, key, value) {
            Ok(()) => Ok(()),
            Err(e) => Err(backend_failure(e)),
        }
    }
}

} // verus!
