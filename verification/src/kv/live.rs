//! The cache of live descriptors: what each channel last reported. It is
//! overwritten whenever a channel is resolved afresh and decides nothing about
//! recording.

use crate::error::{RecordError, StoreFault};
use crate::keys::{live_key, Family};
use crate::kv::{is_family_listing, Entries, Store};
use crate::model::{opt_live_view, LiveInfo, LiveInfoView};
use crate::rows::{live_bytes, live_fits, live_of_bytes};
use vstd::prelude::*;

verus! {

/// The descriptor cached for `url`, if one is stored and can be read.
pub open spec fn live_lookup(m: Entries, url: Seq<char>) -> Option<LiveInfoView> {
    if m.contains_key(live_key(url)) {
        live_of_bytes(m[live_key(url)])
    } else {
        None
    }
}

/// The views of a list of descriptors.
pub open spec fn lives_view(ls: Seq<LiveInfo>) -> Seq<LiveInfoView> {
    Seq::new(ls.len(), |i: int| ls[i]@)
}

/// The descriptors among the listed entries, in the order of the listing;
/// entries that cannot be read are left out.
pub open spec fn listed_lives(listing: Seq<(String, Vec<u8>)>) -> Seq<LiveInfoView>
    decreases listing.len(),
{
    if listing.len() == 0 {
        Seq::empty()
    } else {
        let rest = listed_lives(listing.drop_last());
        match live_of_bytes(listing.last().1@) {
            Some(l) => rest.push(l),
            None => rest,
        }
    }
}

/// Caches a descriptor under its channel, replacing the one cached before.
/// A descriptor is always short enough to be written, so it reads back as it
/// is.
pub fn add(store: &mut Store, live: &LiveInfo) -> (r: Result<(), RecordError>)
    ensures
        match r {
            Ok(()) => final(store)@ == old(store)@.insert(live_key(live@.url), live_bytes(live@)),
            Err(e) => e.is_backend(),
        },
        live_fits(live@),
{
    let key = Family::Live.key(live.url.as_str());
    let value = live.to_bytes();
    store.write(key.as_str(), value.as_slice())
}

/// Drops the descriptor cached for `url`, if there is one.
pub fn delete(store: &mut Store, url: &str) -> (r: Result<(), RecordError>)
    ensures
        match r {
            Ok(()) => final(store)@ == old(store)@.remove(live_key(url@)),
            Err(e) => e.is_backend(),
        },
{
    let key = Family::Live.key(url);
    store.erase(key.as_str())
}

/// The descriptor cached for `url`: none where nothing is cached, an error
/// where what is cached cannot be read.
pub fn get(store: &Store, url: &str) -> (r: Result<Option<LiveInfo>, RecordError>)
    ensures
        match r {
            Ok(Some(l)) => live_lookup(store@, url@) == Some(l@),
            Ok(None) => !store@.contains_key(live_key(url@)),
            Err(e) => e.is_backend() || (e == RecordError::StoreFailure(StoreFault::Malformed)
                && store@.contains_key(live_key(url@)) && live_lookup(store@, url@) is None),
        },
{
    let key = Family::Live.key(url);
    match store.read(key.as_str()) {
        Ok(Some(value)) => match LiveInfo::from_bytes(value.as_slice()) {
            Some(l) => Ok(Some(l)),
            None => Err(RecordError::StoreFailure(StoreFault::Malformed)),
        },
        Ok(None) => Ok(None),
        Err(e) => Err(e),
    }
}

/// The descriptor cached for `url`, if one is stored and can be read.
pub fn lookup(store: &Store, url: &str) -> (r: Result<Option<LiveInfo>, RecordError>)
    ensures
        match r {
            Ok(found) => opt_live_view(found) == live_lookup(store@, url@),
            Err(e) => e.is_backend(),
        },
{
    let key = Family::Live.key(url);
    match store.read(key.as_str()) {
        Ok(Some(value)) => Ok(LiveInfo::from_bytes(value.as_slice())),
        Ok(None) => Ok(None),
        Err(e) => Err(e),
    }
}

/// All cached descriptors, in ascending order of their channels' keys.
pub fn get_all(store: &Store) -> (r: Result<Vec<LiveInfo>, RecordError>)
    ensures
        match r {
            Ok(lives) => exists|listing: Seq<(String, Vec<u8>)>|
                is_family_listing(store@, Family::Live, listing) && lives_view(lives@)
                    == listed_lives(listing),
            Err(e) => e.is_backend(),
        },
{
    let listing = match store.scan(Family::Live) {
        Ok(x) => x,
        Err(e) => {
            return Err(e);
        },
    };
    let mut lives: Vec<LiveInfo> = Vec::new();
    let mut i: usize = 0;
    assert(lives_view(lives@) =~= listed_lives(listing@.subrange(0, 0)));
    while i < listing.len()
        invariant
            i <= listing@.len(),
            lives_view(lives@) == listed_lives(listing@.subrange(0, i as int)),
        decreases listing@.len() - i,
    {
        let found = LiveInfo::from_bytes(listing[i].1.as_slice());
        proof {
            assert(listing@.subrange(0, i + 1).drop_last() =~= listing@.subrange(0, i as int));
            assert(listing@.subrange(0, i + 1).last() == listing@[i as int]);
        }
        match found {
            Some(l) => {
                assert(lives_view(lives@.push(l)) =~= lives_view(lives@).push(l@));
                lives.push(l);
            },
            None => {},
        }
        i += 1;
    }
    assert(listing@.subrange(0, i as int) =~= listing@);
    Ok(lives)
}

} // verus!
