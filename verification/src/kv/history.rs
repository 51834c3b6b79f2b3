//! History rows: one per capture attempt. A row is created together with the
//! lock of its channel and closed together with the removal of that lock, each
//! in one transaction.

use crate::clock::now_millis;
use crate::error::{RecordError, StoreFault};
use crate::keys::{history_key, make_history_key, Family};
use crate::kv::live::{live_lookup, lookup};
use crate::kv::recording::{add_lock, lock_value, make_lock_key, read_lock_start, remove_lock};
use crate::kv::{is_family_listing, Entries, Store};
use crate::model::{RecordStatus, RecordingHistory, RecordingHistoryView};
use crate::rows::{history_bytes, history_fits, history_of_bytes};
use vstd::prelude::*;

verus! {

/// The views of a list of rows.
pub open spec fn histories_view(hs: Seq<RecordingHistory>) -> Seq<RecordingHistoryView> {
    Seq::new(hs.len(), |i: int| hs[i]@)
}

/// The row as it is when its capture has ended at `now`.
pub open spec fn closed(h: RecordingHistoryView, now: i64) -> RecordingHistoryView {
    RecordingHistoryView { status: RecordStatus::NotRecording, end_time: now, ..h }
}

/// What is stored for the capture of `url` that began at `start_time`.
pub open spec fn row_entry(m: Entries, url: Seq<char>, start_time: i64) -> Option<Seq<u8>> {
    if m.contains_key(history_key(url, start_time as int)) {
        Some(m[history_key(url, start_time as int)])
    } else {
        None
    }
}

/// The row of the capture of `url` that began at `start_time`, if it is
/// stored and can be read.
pub open spec fn row_at(m: Entries, url: Seq<char>, start_time: i64) -> Option<
    RecordingHistoryView,
> {
    match row_entry(m, url, start_time) {
        Some(bytes) => history_of_bytes(bytes),
        None => None,
    }
}

/// Recording a new capture: refused where the channel has a lock, else the
/// store gains the lock and the row.
pub open spec fn add_outcome(m: Entries, h: RecordingHistoryView) -> Result<Entries, RecordError> {
    match add_lock(m, h.url, h.start_time) {
        Ok(locked) => Ok(locked.insert(history_key(h.url, h.start_time as int), history_bytes(h))),
        Err(e) => Err(e),
    }
}

/// The bytes of the closed row, from what was found under the row's key.
pub open spec fn closed_row(entry: Option<Seq<u8>>, now: i64) -> Result<Seq<u8>, RecordError> {
    match entry {
        None => Err(RecordError::StoreFailure(StoreFault::HistoryNotFound)),
        Some(bytes) => match history_of_bytes(bytes) {
            Some(h) => Ok(history_bytes(closed(h, now))),
            None => Err(RecordError::StoreFailure(StoreFault::Malformed)),
        },
    }
}

/// Ending the capture of `url` at `now`: the lock goes and the row that the
/// lock points at is closed. Refused, with the store untouched, where the
/// channel has no lock, or the lock or the row cannot be read.
pub open spec fn end_outcome(m: Entries, url: Seq<char>, now: i64) -> Result<Entries, RecordError> {
    match remove_lock(m, url) {
        Ok((unlocked, start_time)) => match closed_row(row_entry(m, url, start_time), now) {
            Ok(bytes) => Ok(unlocked.insert(history_key(url, start_time as int), bytes)),
            Err(e) => Err(e),
        },
        Err(e) => Err(e),
    }
}

/// What `add` leaves behind and reports.
pub open spec fn add_post(
    before: Entries,
    after: Entries,
    h: RecordingHistoryView,
    r: Result<(), RecordError>,
) -> bool {
    match r {
        Ok(()) => add_outcome(before, h) == Ok::<Entries, RecordError>(after),
        Err(e) => e.is_backend() || (after == before && add_outcome(before, h) == Err::<
            Entries,
            RecordError,
        >(e)),
    }
}

/// What `end` leaves behind and reports.
pub open spec fn end_post(
    before: Entries,
    after: Entries,
    url: Seq<char>,
    now: i64,
    r: Result<(), RecordError>,
) -> bool {
    match r {
        Ok(()) => end_outcome(before, url, now) == Ok::<Entries, RecordError>(after),
        Err(e) => e.is_backend() || (after == before && end_outcome(before, url, now) == Err::<
            Entries,
            RecordError,
        >(e)),
    }
}

/// Records a new capture: in one transaction, creates the lock of the row's
/// channel and stores the row. Fails with `AlreadyRecording`, and changes
/// nothing, where the channel has a lock.
pub fn add(store: &mut Store, history: &RecordingHistory) -> (r: Result<(), RecordError>)
    ensures
        add_post(old(store)@, final(store)@, history@, r),
        r is Ok ==> history_fits(history@),
{
    let lock = make_lock_key(history.url.as_str());
    let found = match store.read(lock.as_str()) {
        Ok(x) => x,
        Err(e) => {
            return Err(e);
        },
    };
    if found.is_some() {
        return Err(RecordError::AlreadyRecording);
    }
    let key = make_history_key(history.url.as_str(), history.start_time);
    let value = lock_value(history.start_time);
    let row = history.to_bytes();
    store.write_both(lock.as_str(), value.as_slice(), key.as_str(), row.as_slice())
}

/// The row of the capture of `url` that began at `start_time`.
pub fn get(store: &Store, url: &str, start_time: i64) -> (r: Result<RecordingHistory, RecordError>)
    ensures
        match r {
            Ok(h) => row_at(store@, url@, start_time) == Some(h@),
            Err(e) => e.is_backend() || (row_at(store@, url@, start_time) is None && e == (
            if row_entry(store@, url@, start_time) is None {
                RecordError::StoreFailure(StoreFault::HistoryNotFound)
            } else {
                RecordError::StoreFailure(StoreFault::Malformed)
            })),
        },
{
    let key = make_history_key(url, start_time);
    match store.read(key.as_str()) {
        Ok(Some(bytes)) => match RecordingHistory::from_bytes(bytes.as_slice()) {
            Some(h) => Ok(h),
            None => Err(RecordError::StoreFailure(StoreFault::Malformed)),
        },
        Ok(None) => Err(RecordError::StoreFailure(StoreFault::HistoryNotFound)),
        Err(e) => Err(e),
    }
}

/// Removes the row of the capture of `url` that began at `start_time`, if
/// there is one. The lock of the channel is left alone.
pub fn delete(store: &mut Store, url: &str, start_time: i64) -> (r: Result<(), RecordError>)
    ensures
        match r {
            Ok(()) => final(store)@ == old(store)@.remove(history_key(url@, start_time as int)),
            Err(e) => e.is_backend(),
        },
{
    let key = make_history_key(url, start_time);
    store.erase(key.as_str())
}

/// The bytes of the closed row, from what was found under the row's key.
pub fn close_row(entry: &Option<Vec<u8>>, now: i64) -> (r: Result<Vec<u8>, RecordError>)
    ensures
        match r {
            Ok(bytes) => closed_row(
                match *entry {
                    Some(v) => Some(v@),
                    None => None,
                },
                now,
            ) == Ok::<Seq<u8>, RecordError>(bytes@),
            Err(e) => closed_row(
                match *entry {
                    Some(v) => Some(v@),
                    None => None,
                },
                now,
            ) == Err::<Seq<u8>, RecordError>(e),
        },
{
    match entry {
        None => Err(RecordError::StoreFailure(StoreFault::HistoryNotFound)),
        Some(bytes) => match RecordingHistory::from_bytes(bytes.as_slice()) {
            Some(h) => {
                let mut h = h;
                h.status = RecordStatus::NotRecording;
                h.end_time = now;
                Ok(h.to_bytes())
            },
            None => Err(RecordError::StoreFailure(StoreFault::Malformed)),
        },
    }
}

/// Ends the capture of `url` at time `now`: in one transaction, removes the
/// lock of the channel and closes the row that the lock points at. Fails with
/// `NotRecording`, and changes nothing, where the channel has no lock.
pub fn end_at(store: &mut Store, url: &str, now: i64) -> (r: Result<(), RecordError>)
    ensures
        end_post(old(store)@, final(store)@, url@, now, r),
{
    let lock = make_lock_key(url);
    let found = match store.read(lock.as_str()) {
        Ok(x) => x,
        Err(e) => {
            return Err(e);
        },
    };
    let start_time = match read_lock_start(&found) {
        Ok(t) => t,
        Err(e) => {
            return Err(e);
        },
    };
    let key = make_history_key(url, start_time);
    let row = match store.read(key.as_str()) {
        Ok(x) => x,
        Err(e) => {
            return Err(e);
        },
    };
    let bytes = match close_row(&row, now) {
        Ok(b) => b,
        Err(e) => {
            return Err(e);
        },
    };
    store.replace(lock.as_str(), key.as_str(), bytes.as_slice())
}

/// Ends the capture of `url` now; the time is never before the epoch.
pub fn end(store: &mut Store, url: &str) -> (r: Result<(), RecordError>)
    ensures
        exists|now: i64| now >= 0 && end_post(old(store)@, final(store)@, url@, now, r),
{
    let now = now_millis();
    let r = end_at(store, url, now);
    assert(now >= 0 && end_post(old(store)@, store@, url@, now, r));
    r
}

/// The first position from `i` on whose row began before `t`; the length of
/// the list where there is none.
pub open spec fn first_older(rows: Seq<RecordingHistoryView>, t: i64, i: int) -> int
    decreases rows.len() - i,
{
    if i < 0 || i >= rows.len() {
        rows.len() as int
    } else if rows[i].start_time < t {
        i
    } else {
        first_older(rows, t, i + 1)
    }
}

/// The list with `h` placed before the first row that began earlier than it.
pub open spec fn placed(rows: Seq<RecordingHistoryView>, h: RecordingHistoryView) -> Seq<
    RecordingHistoryView,
> {
    rows.insert(first_older(rows, h.start_time, 0), h)
}

/// The row with the cached descriptor of its channel filled in where the row
/// carries none of its own.
pub open spec fn with_live(h: RecordingHistoryView, m: Entries) -> RecordingHistoryView {
    if h.live_info is None {
        RecordingHistoryView { live_info: live_lookup(m, h.url), ..h }
    } else {
        h
    }
}

/// The rows among the listed entries, latest start first; rows that began at
/// the same time stay in the order of the listing, and entries that cannot be
/// read are left out.
pub open spec fn listed_rows(m: Entries, listing: Seq<(String, Vec<u8>)>) -> Seq<
    RecordingHistoryView,
>
    decreases listing.len(),
{
    if listing.len() == 0 {
        Seq::empty()
    } else {
        let rest = listed_rows(m, listing.drop_last());
        match history_of_bytes(listing.last().1@) {
            Some(h) => placed(rest, with_live(h, m)),
            None => rest,
        }
    }
}

/// No row of the list began later than a row before it.
pub open spec fn latest_first(rows: Seq<RecordingHistoryView>) -> bool {
    forall|i: int, j: int| 0 <= i < j < rows.len() ==> rows[i].start_time >= rows[j].start_time
}

/// The place found for a start time lies in the list, behind every row that
/// began no earlier and, unless it is the end, at a row that began earlier.
pub proof fn lemma_first_older(rows: Seq<RecordingHistoryView>, t: i64, i: int)
    requires
        0 <= i <= rows.len(),
    ensures
        i <= first_older(rows, t, i) <= rows.len(),
        forall|k: int| i <= k < first_older(rows, t, i) ==> rows[k].start_time >= t,
        first_older(rows, t, i) < rows.len() ==> rows[first_older(rows, t, i)].start_time < t,
    decreases rows.len() - i,
{
    if i < rows.len() && rows[i].start_time >= t {
        lemma_first_older(rows, t, i + 1);
    }
}

/// Placing a row keeps a list in order.
pub proof fn lemma_placed_latest_first(rows: Seq<RecordingHistoryView>, h: RecordingHistoryView)
    requires
        latest_first(rows),
    ensures
        latest_first(placed(rows, h)),
        placed(rows, h).len() == rows.len() + 1,
{
    lemma_first_older(rows, h.start_time, 0);
    let at = first_older(rows, h.start_time, 0);
    let out = placed(rows, h);
    assert forall|i: int, j: int| 0 <= i < j < out.len() implies out[i].start_time
        >= out[j].start_time by {
        if j < at {
            assert(out[i] == rows[i] && out[j] == rows[j]);
        } else if j == at {
            assert(out[i] == rows[i]);
        } else if i < at {
            assert(out[i] == rows[i] && out[j] == rows[j - 1]);
        } else if i == at {
            assert(out[j] == rows[j - 1]);
            assert(rows[at].start_time >= rows[j - 1].start_time || at == j - 1);
        } else {
            assert(out[i] == rows[i - 1] && out[j] == rows[j - 1]);
        }
    }
}

/// The listed rows come latest start first.
pub proof fn lemma_listed_rows_latest_first(m: Entries, listing: Seq<(String, Vec<u8>)>)
    ensures
        latest_first(listed_rows(m, listing)),
    decreases listing.len(),
{
    if listing.len() > 0 {
        lemma_listed_rows_latest_first(m, listing.drop_last());
        match history_of_bytes(listing.last().1@) {
            Some(h) => {
                lemma_placed_latest_first(listed_rows(m, listing.drop_last()), with_live(h, m));
            },
            None => {},
        }
    }
}

/// Every entry of the listing that can be read as a row is among the listed
/// rows.
pub proof fn lemma_listed_rows_hold(m: Entries, listing: Seq<(String, Vec<u8>)>, j: int)
    requires
        0 <= j < listing.len(),
        history_of_bytes(listing[j].1@) is Some,
    ensures
        exists|i: int|
            0 <= i < listed_rows(m, listing).len() && #[trigger] listed_rows(m, listing)[i]
                == with_live(history_of_bytes(listing[j].1@)->Some_0, m),
    decreases listing.len(),
{
    let rest = listed_rows(m, listing.drop_last());
    let wanted = with_live(history_of_bytes(listing[j].1@)->Some_0, m);
    if j == listing.len() - 1 {
        lemma_first_older(rest, wanted.start_time, 0);
        let at = first_older(rest, wanted.start_time, 0);
        assert(listed_rows(m, listing)[at] == wanted);
    } else {
        assert(listing.drop_last()[j] == listing[j]);
        lemma_listed_rows_hold(m, listing.drop_last(), j);
        let i = choose|i: int| 0 <= i < rest.len() && #[trigger] rest[i] == wanted;
        match history_of_bytes(listing.last().1@) {
            Some(h) => {
                let x = with_live(h, m);
                lemma_first_older(rest, x.start_time, 0);
                let at = first_older(rest, x.start_time, 0);
                if i < at {
                    assert(listed_rows(m, listing)[i] == wanted);
                } else {
                    assert(listed_rows(m, listing)[i + 1] == wanted);
                }
            },
            None => {
                assert(listed_rows(m, listing)[i] == wanted);
            },
        }
    }
}

/// Places `h` before the first row that began earlier than it.
fn place(rows: &mut Vec<RecordingHistory>, h: RecordingHistory)
    ensures
        histories_view(final(rows)@) == placed(histories_view(old(rows)@), h@),
{
    let mut i: usize = 0;
    while i < rows.len() && rows[i].start_time >= h.start_time
        invariant
            i <= rows@.len(),
            first_older(histories_view(rows@), h.start_time, 0) == first_older(
                histories_view(rows@),
                h.start_time,
                i as int,
            ),
        decreases rows@.len() - i,
    {
        i += 1;
    }
    assert(first_older(histories_view(rows@), h.start_time, i as int) == i);
    assert(histories_view(rows@.insert(i as int, h)) =~= histories_view(rows@).insert(
        i as int,
        h@,
    ));
    rows.insert(i, h);
}

/// All rows, latest start first, each with the cached descriptor of its
/// channel where it carries none of its own. Entries that cannot be read are
/// left out.
pub fn get_all(store: &Store) -> (r: Result<Vec<RecordingHistory>, RecordError>)
    ensures
        match r {
            Ok(rows) => exists|listing: Seq<(String, Vec<u8>)>|
                is_family_listing(store@, Family::History, listing) && histories_view(rows@)
                    == listed_rows(store@, listing),
            Err(e) => e.is_backend(),
        },
{
    let listing = match store.scan(Family::History) {
        Ok(x) => x,
        Err(e) => {
            return Err(e);
        },
    };
    let mut rows: Vec<RecordingHistory> = Vec::new();
    let mut i: usize = 0;
    assert(histories_view(rows@) =~= listed_rows(store@, listing@.subrange(0, 0)));
    while i < listing.len()
        invariant
            i <= listing@.len(),
            histories_view(rows@) == listed_rows(store@, listing@.subrange(0, i as int)),
        decreases listing@.len() - i,
    {
        let found = RecordingHistory::from_bytes(listing[i].1.as_slice());
        proof {
            assert(listing@.subrange(0, i + 1).drop_last() =~= listing@.subrange(0, i as int));
            assert(listing@.subrange(0, i + 1).last() == listing@[i as int]);
        }
        match found {
            Some(h) => {
                let mut h = h;
                if h.live_info.is_none() {
                    match lookup(store, h.url.as_str()) {
                        Ok(live) => {
                            h.live_info = live;
                        },
                        Err(e) => {
                            return Err(e);
                        },
                    }
                }
                place(&mut rows, h);
            },
            None => {},
        }
        i += 1;
    }
    assert(listing@.subrange(0, i as int) =~= listing@);
    Ok(rows)
}

} // verus!
