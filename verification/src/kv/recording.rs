//! Recording locks. A channel is being recorded exactly when the store holds
//! a lock for it; the lock's value is the start time of the capture, by which
//! the matching history row is found.

use crate::error::{RecordError, StoreFault};
use crate::keys::{lemma_family_key_injective, lock_key, Family};
use crate::kv::{Entries, Store};
use crate::wire::{be_bytes_i64, be_value_i64, get_i64, lemma_be_round_trip_i64, put_i64};
use vstd::prelude::*;

verus! {

/// The channel has a lock.
pub open spec fn is_locked(m: Entries, url: Seq<char>) -> bool {
    m.contains_key(lock_key(url))
}

/// What is stored under the lock key of `url`, if anything.
pub open spec fn lock_entry(m: Entries, url: Seq<char>) -> Option<Seq<u8>> {
    if is_locked(m, url) {
        Some(m[lock_key(url)])
    } else {
        None
    }
}

/// The start time that a lock entry holds: none where there is no lock, and a
/// malformed value where the entry is not eight bytes long.
pub open spec fn lock_start(entry: Option<Seq<u8>>) -> Result<i64, RecordError> {
    match entry {
        None => Err(RecordError::NotRecording),
        Some(value) => if value.len() == 8 {
            Ok(be_value_i64(value))
        } else {
            Err(RecordError::StoreFailure(StoreFault::Malformed))
        },
    }
}

/// Creating a lock: refused where the channel has one, else the store gains
/// the lock with the start time as its value.
pub open spec fn add_lock(m: Entries, url: Seq<char>, start_time: i64) -> Result<
    Entries,
    RecordError,
> {
    if is_locked(m, url) {
        Err(RecordError::AlreadyRecording)
    } else {
        Ok(m.insert(lock_key(url), be_bytes_i64(start_time)))
    }
}

/// Removing a lock: refused where the channel has none, else the store loses
/// the lock and its start time is handed out.
pub open spec fn remove_lock(m: Entries, url: Seq<char>) -> Result<(Entries, i64), RecordError> {
    match lock_start(lock_entry(m, url)) {
        Ok(start_time) => Ok((m.remove(lock_key(url)), start_time)),
        Err(e) => Err(e),
    }
}

/// A lock that was created is removed with the start time it was created
/// with, and the store is then as it was before.
pub proof fn lemma_lock_round_trip(m: Entries, url: Seq<char>, start_time: i64)
    requires
        !is_locked(m, url),
    ensures
        add_lock(m, url, start_time) is Ok,
        remove_lock(add_lock(m, url, start_time)->Ok_0, url) == Ok::<(Entries, i64), RecordError>(
            (m, start_time),
        ),
{
    lemma_be_round_trip_i64(start_time);
    let m1 = m.insert(lock_key(url), be_bytes_i64(start_time));
    assert(m1.remove(lock_key(url)) =~= m);
}

/// A channel never has two locks: a second lock is refused while the first
/// stands, whatever start time it comes with.
pub proof fn lemma_second_lock_refused(m: Entries, url: Seq<char>, first: i64, second: i64)
    requires
        add_lock(m, url, first) is Ok,
    ensures
        add_lock(add_lock(m, url, first)->Ok_0, url, second) == Err::<Entries, RecordError>(
            RecordError::AlreadyRecording,
        ),
{
}

/// Locks of different channels do not touch each other.
pub proof fn lemma_locks_independent(m: Entries, url: Seq<char>, other: Seq<char>, t: i64)
    requires
        url != other,
        add_lock(m, url, t) is Ok,
    ensures
        is_locked(add_lock(m, url, t)->Ok_0, other) == is_locked(m, other),
        lock_entry(add_lock(m, url, t)->Ok_0, other) == lock_entry(m, other),
{
    lemma_family_key_injective(Family::Recording, url, other);
}

/// The key of the lock of `url`.
pub fn make_lock_key(url: &str) -> (k: String)
    ensures
        k@ == lock_key(url@),
{
    Family::Recording.key(url)
}

/// The value of a lock with the given start time.
pub fn lock_value(start_time: i64) -> (v: Vec<u8>)
    ensures
        v@ == be_bytes_i64(start_time),
{
    let mut v: Vec<u8> = Vec::new();
    put_i64(&mut v, start_time);
    assert(Seq::<u8>::empty() + be_bytes_i64(start_time) =~= be_bytes_i64(start_time));
    v
}

/// The start time in what was found under a lock key.
pub fn read_lock_start(entry: &Option<Vec<u8>>) -> (r: Result<i64, RecordError>)
    ensures
        r == lock_start(
            match *entry {
                Some(v) => Some(v@),
                None => None,
            },
        ),
{
    match entry {
        None => Err(RecordError::NotRecording),
        Some(value) => {
            if value.len() == 8 {
                let t = get_i64(value.as_slice(), 0);
                assert(value@.subrange(0, 8) =~= value@);
                Ok(t)
            } else {
                Err(RecordError::StoreFailure(StoreFault::Malformed))
            }
        },
    }
}

/// Whether the channel has a lock.
pub fn is_exist(store: &Store, url: &str) -> (r: Result<bool, RecordError>)
    ensures
        match r {
            Ok(found) => found == is_locked(store@, url@),
            Err(e) => e.is_backend(),
        },
{
    let key = make_lock_key(url);
    match store.read(key.as_str()) {
        Ok(found) => Ok(found.is_some()),
        Err(e) => Err(e),
    }
}

/// Creates the lock of `url` with the given start time, unless the channel
/// has one already.
pub fn add(store: &mut Store, url: &str, start_time: i64) -> (r: Result<(), RecordError>)
    ensures
        match r {
            Ok(()) => add_lock(old(store)@, url@, start_time) == Ok::<Entries, RecordError>(
                final(store)@,
            ),
            Err(e) => e.is_backend() || (final(store)@ == old(store)@ && add_lock(
                old(store)@,
                url@,
                start_time,
            ) == Err::<Entries, RecordError>(e)),
        },
{
    let key = make_lock_key(url);
    let found = match store.read(key.as_str()) {
        Ok(x) => x,
        Err(e) => {
            return Err(e);
        },
    };
    if found.is_some() {
        return Err(RecordError::AlreadyRecording);
    }
    let value = lock_value(start_time);
    store.write(key.as_str(), value.as_slice())
}

/// Removes the lock of `url` and returns the start time it held.
pub fn delete(store: &mut Store, url: &str) -> (r: Result<i64, RecordError>)
    ensures
        match r {
            Ok(start_time) => remove_lock(old(store)@, url@) == Ok::<(Entries, i64), RecordError>(
                (final(store)@, start_time),
            ),
            Err(e) => e.is_backend() || (final(store)@ == old(store)@ && remove_lock(
                old(store)@,
                url@,
            ) == Err::<(Entries, i64), RecordError>(e)),
        },
{
    let key = make_lock_key(url);
    let found = match store.read(key.as_str()) {
        Ok(x) => x,
        Err(e) => {
            return Err(e);
        },
    };
    let start_time = match read_lock_start(&found) {
        Ok(t) => t,
        Err(e) => {
            return Err(e);
        },
    };
    match store.erase(key.as_str()) {
        Ok(()) => Ok(start_time),
        Err(e) => Err(e),
    }
}

} // verus!
