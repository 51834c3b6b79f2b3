//! What holds of the store and the registry across operations: a channel has
//! at most one lock, a capture that is ended stays ended, and recovery and
//! the health check close what a crash or a dead process left open.

use crate::backstage::{is_dangling, reap_step, reaped, recovered};
use crate::error::RecordError;
use crate::keys::{
    history_key, history_name, lemma_families_disjoint, lemma_family_key_injective,
    lemma_family_key_prefix, lock_key, Family,
};
use crate::kv::history::{
    add_outcome, closed, end_outcome, lemma_listed_rows_hold, listed_rows, row_at, row_entry,
    with_live,
};
use crate::kv::recording::{is_locked, lock_entry, lock_start, remove_lock};
use crate::kv::{is_family_listing, Entries};
use crate::manager::{ended, ended_all, status_of, ProbeState};
use crate::model::{RecordStatus, RecordingHistoryView};
use crate::rows::{
    history_fields, history_fits, lemma_history_read_fits, lemma_history_round_trip,
    stored_history,
};
use crate::text::{decimal_int, decimal_nat, lemma_decimal_injective};
use crate::wire::{field_fits, lemma_be_round_trip_i64};
use vstd::prelude::*;

verus! {

// ---------------------------------------------------------------------------
// Keys of different channels never meet
// ---------------------------------------------------------------------------
proof fn lemma_decimal_nat_no_colon(n: nat)
    ensures
        decimal_nat(n).len() >= 1,
        forall|i: int| 0 <= i < decimal_nat(n).len() ==> decimal_nat(n)[i] != ':',
    decreases n,
{
    if n >= 10 {
        lemma_decimal_nat_no_colon(n / 10);
    }
}

/// The decimal rendering of a number is not empty and holds no colon.
pub proof fn lemma_decimal_no_colon(x: int)
    ensures
        decimal_int(x).len() >= 1,
        forall|i: int| 0 <= i < decimal_int(x).len() ==> decimal_int(x)[i] != ':',
{
    if x < 0 {
        lemma_decimal_nat_no_colon((-x) as nat);
    } else {
        lemma_decimal_nat_no_colon(x as nat);
    }
}

/// History rows of different channels have different keys, whatever their
/// start times.
pub proof fn lemma_history_keys_differ(u1: Seq<char>, t1: int, u2: Seq<char>, t2: int)
    requires
        u1 != u2,
    ensures
        history_key(u1, t1) != history_key(u2, t2),
{
    let n1 = history_name(u1, t1);
    let n2 = history_name(u2, t2);
    let d1 = decimal_int(t1);
    let d2 = decimal_int(t2);
    lemma_decimal_no_colon(t1);
    lemma_decimal_no_colon(t2);
    if history_key(u1, t1) == history_key(u2, t2) {
        lemma_family_key_injective(Family::History, n1, n2);
        assert(n1 == n2);
        assert(n1.len() == u1.len() + 1 + d1.len());
        assert(n2.len() == u2.len() + 1 + d2.len());
        if u1.len() == u2.len() {
            assert(u1 =~= n1.subrange(0, u1.len() as int));
            assert(u2 =~= n2.subrange(0, u2.len() as int));
        } else if u1.len() < u2.len() {
            assert(n2[u2.len() as int] == ':');
            assert(n1[u2.len() as int] == d1[u2.len() - u1.len() - 1]);
        } else {
            assert(n1[u1.len() as int] == ':');
            assert(n2[u1.len() as int] == d2[u1.len() - u2.len() - 1]);
        }
    }
}

/// Every capture has a history key of its own: two keys are the same only
/// for the same channel and the same start time.
pub proof fn lemma_history_key_injective(u1: Seq<char>, t1: int, u2: Seq<char>, t2: int)
    ensures
        history_key(u1, t1) == history_key(u2, t2) ==> u1 == u2 && t1 == t2,
{
    if history_key(u1, t1) == history_key(u2, t2) {
        if u1 != u2 {
            lemma_history_keys_differ(u1, t1, u2, t2);
        }
        let n1 = history_name(u1, t1);
        let n2 = history_name(u2, t2);
        lemma_family_key_injective(Family::History, n1, n2);
        assert(decimal_int(t1) =~= n1.subrange(u1.len() as int + 1, n1.len() as int));
        assert(decimal_int(t2) =~= n2.subrange(u2.len() as int + 1, n2.len() as int));
        lemma_decimal_injective(t1, t2);
    }
}

/// No lock has the key of a history row.
pub proof fn lemma_lock_is_no_row(u1: Seq<char>, u2: Seq<char>, t2: int)
    ensures
        lock_key(u1) != history_key(u2, t2),
{
    lemma_family_key_prefix(Family::Recording, u1);
    lemma_family_key_prefix(Family::History, history_name(u2, t2));
    lemma_families_disjoint(Family::Recording, Family::History, lock_key(u1));
}

// ---------------------------------------------------------------------------
// The two states of a capture in the store
// ---------------------------------------------------------------------------
/// The capture of `url` that began at `t` is open: the channel's lock points
/// at the row `h`.
pub open spec fn is_open(m: Entries, url: Seq<char>, t: i64, h: RecordingHistoryView) -> bool {
    &&& lock_start(lock_entry(m, url)) == Ok::<i64, RecordError>(t)
    &&& row_at(m, url, t) == Some(h)
}

/// The capture of `url` that began at `t` with the row `h` was ended at
/// `now`: the channel has no lock, and the row says that the capture is over
/// and when it ended.
pub open spec fn is_closed(
    m: Entries,
    url: Seq<char>,
    t: i64,
    h: RecordingHistoryView,
    now: i64,
) -> bool {
    &&& !is_locked(m, url)
    &&& row_at(m, url, t) == Some(closed(h, now))
}

proof fn lemma_closed_fits(h: RecordingHistoryView, now: i64)
    requires
        history_fits(h),
    ensures
        history_fits(closed(h, now)),
{
    let a = history_fields(h);
    let b = history_fields(closed(h, now));
    assert(a.len() == b.len());
    assert forall|i: int| 0 <= i < b.len() implies field_fits(#[trigger] b[i]) by {
        if i == 1 || i == 3 {
        } else {
            assert(b[i] == a[i]);
            assert(field_fits(a[i]));
        }
    }
}

/// A new capture is open once it is recorded, and the store says that the
/// channel is being recorded.
pub proof fn lemma_added_is_open(m: Entries, h: RecordingHistoryView)
    requires
        history_fits(h),
        add_outcome(m, h) is Ok,
    ensures
        is_open(add_outcome(m, h)->Ok_0, h.url, h.start_time, stored_history(h)),
        status_of(add_outcome(m, h)->Ok_0, h.url) == RecordStatus::Recording,
{
    lemma_lock_is_no_row(h.url, h.url, h.start_time as int);
    lemma_be_round_trip_i64(h.start_time);
    lemma_history_round_trip(h);
}

/// While a capture is recorded, a second one for the same channel is
/// refused, and the store stays as it is.
pub proof fn lemma_second_add_refused(
    m: Entries,
    first: RecordingHistoryView,
    second: RecordingHistoryView,
)
    requires
        add_outcome(m, first) is Ok,
        second.url == first.url,
    ensures
        add_outcome(add_outcome(m, first)->Ok_0, second) == Err::<Entries, RecordError>(
            RecordError::AlreadyRecording,
        ),
{
    lemma_lock_is_no_row(first.url, first.url, first.start_time as int);
}

/// Ending an open capture closes it.
pub proof fn lemma_end_closes(
    m: Entries,
    url: Seq<char>,
    t: i64,
    h: RecordingHistoryView,
    now: i64,
)
    requires
        is_open(m, url, t, h),
    ensures
        end_outcome(m, url, now) is Ok,
        is_closed(ended(m, url, now), url, t, h, now),
        status_of(ended(m, url, now), url) == RecordStatus::NotRecording,
{
    lemma_lock_is_no_row(url, url, t as int);
    let bytes = row_entry(m, url, t)->Some_0;
    lemma_history_read_fits(bytes);
    lemma_closed_fits(h, now);
    lemma_history_round_trip(closed(h, now));
    assert(stored_history(closed(h, now)) == closed(h, now));
}

/// Ending the capture of a channel that has none changes nothing, so a
/// capture that was stopped can be stopped again: the second stop finds no
/// lock and leaves the store as the first one left it.
pub proof fn lemma_stop_twice(m: Entries, url: Seq<char>, now: i64, later: i64)
    requires
        end_outcome(m, url, now) is Ok || end_outcome(m, url, now) == Err::<Entries, RecordError>(
            RecordError::NotRecording,
        ),
    ensures
        end_outcome(ended(m, url, now), url, later) == Err::<Entries, RecordError>(
            RecordError::NotRecording,
        ),
        ended(ended(m, url, now), url, later) == ended(m, url, now),
        status_of(ended(m, url, now), url) == RecordStatus::NotRecording,
{
    if end_outcome(m, url, now) is Ok {
        let t = remove_lock(m, url)->Ok_0.1;
        lemma_lock_is_no_row(url, url, t as int);
    }
}

/// Ending the capture of one channel leaves the lock and the rows of every
/// other channel as they are.
pub proof fn lemma_end_elsewhere(
    m: Entries,
    other: Seq<char>,
    now: i64,
    url: Seq<char>,
    t: i64,
)
    requires
        other != url,
    ensures
        lock_entry(ended(m, other, now), url) == lock_entry(m, url),
        row_entry(ended(m, other, now), url, t) == row_entry(m, url, t),
{
    if end_outcome(m, other, now) is Ok {
        let started = remove_lock(m, other)->Ok_0.1;
        lemma_family_key_injective(Family::Recording, other, url);
        lemma_lock_is_no_row(url, other, started as int);
        lemma_lock_is_no_row(other, url, t as int);
        lemma_history_keys_differ(other, started as int, url, t as int);
    }
}

/// A capture that is open stays open, and one that is closed stays closed,
/// when the capture of another channel is ended; a closed one stays closed
/// also when its own channel is ended again.
pub proof fn lemma_end_keeps(
    m: Entries,
    other: Seq<char>,
    at: i64,
    url: Seq<char>,
    t: i64,
    h: RecordingHistoryView,
    now: i64,
)
    ensures
        other != url && is_open(m, url, t, h) ==> is_open(ended(m, other, at), url, t, h),
        is_closed(m, url, t, h, now) ==> is_closed(ended(m, other, at), url, t, h, now),
{
    if other != url {
        lemma_end_elsewhere(m, other, at, url, t);
    }
}

// ---------------------------------------------------------------------------
// Recovery
// ---------------------------------------------------------------------------
proof fn lemma_recovery_keeps_closed(
    m: Entries,
    tasks: Map<Seq<char>, u32>,
    rows: Seq<RecordingHistoryView>,
    at: i64,
    url: Seq<char>,
    t: i64,
    h: RecordingHistoryView,
    now: i64,
)
    requires
        is_closed(m, url, t, h, now),
    ensures
        is_closed(recovered(m, tasks, rows, at), url, t, h, now),
    decreases rows.len(),
{
    if rows.len() > 0 {
        lemma_recovery_keeps_closed(m, tasks, rows.drop_last(), at, url, t, h, now);
        let before = recovered(m, tasks, rows.drop_last(), at);
        lemma_end_keeps(before, rows.last().url, at, url, t, h, now);
    }
}

proof fn lemma_recovery_open_or_closed(
    m: Entries,
    tasks: Map<Seq<char>, u32>,
    rows: Seq<RecordingHistoryView>,
    url: Seq<char>,
    t: i64,
    h: RecordingHistoryView,
    now: i64,
)
    requires
        is_open(m, url, t, h),
    ensures
        is_open(recovered(m, tasks, rows, now), url, t, h) || is_closed(
            recovered(m, tasks, rows, now),
            url,
            t,
            h,
            now,
        ),
    decreases rows.len(),
{
    if rows.len() > 0 {
        lemma_recovery_open_or_closed(m, tasks, rows.drop_last(), url, t, h, now);
        let before = recovered(m, tasks, rows.drop_last(), now);
        lemma_end_keeps(before, rows.last().url, now, url, t, h, now);
        if rows.last().url == url && is_open(before, url, t, h) {
            lemma_end_closes(before, url, t, h, now);
        }
    }
}

/// Recovery closes what a crash left open. Where a history row says that the
/// capture of a channel runs, no process is registered for the channel, and
/// the channel's lock points at a stored row, recovery removes the lock and
/// closes that row: afterwards the row says that the capture is over and
/// that it ended at the time of the recovery.
pub proof fn lemma_recovery_closes(
    m: Entries,
    tasks: Map<Seq<char>, u32>,
    rows: Seq<RecordingHistoryView>,
    i: int,
    t: i64,
    h: RecordingHistoryView,
    now: i64,
)
    requires
        0 <= i < rows.len(),
        is_dangling(rows[i], tasks),
        is_open(m, rows[i].url, t, h),
    ensures
        is_closed(recovered(m, tasks, rows, now), rows[i].url, t, h, now),
        status_of(recovered(m, tasks, rows, now), rows[i].url) == RecordStatus::NotRecording,
        row_at(recovered(m, tasks, rows, now), rows[i].url, t)->Some_0.status
            == RecordStatus::NotRecording,
        row_at(recovered(m, tasks, rows, now), rows[i].url, t)->Some_0.end_time == now,
    decreases rows.len(),
{
    let url = rows[i].url;
    let before = recovered(m, tasks, rows.drop_last(), now);
    if i == rows.len() - 1 {
        lemma_recovery_open_or_closed(m, tasks, rows.drop_last(), url, t, h, now);
        if is_open(before, url, t, h) {
            lemma_end_closes(before, url, t, h, now);
        } else {
            lemma_end_keeps(before, url, now, url, t, h, now);
        }
    } else {
        assert(rows.drop_last()[i] == rows[i]);
        lemma_recovery_closes(m, tasks, rows.drop_last(), i, t, h, now);
        lemma_end_keeps(before, rows.last().url, now, url, t, h, now);
    }
}

/// Recovery closes every dangling capture that the store holds. Where the
/// lock of a channel points at a stored row that says that the capture runs,
/// and no process is registered for the channel, recovery over the rows of
/// the store removes the lock and closes the row.
pub proof fn lemma_recovery_closes_stored(
    m: Entries,
    tasks: Map<Seq<char>, u32>,
    listing: Seq<(String, Vec<u8>)>,
    url: Seq<char>,
    t: i64,
    h: RecordingHistoryView,
    now: i64,
)
    requires
        is_family_listing(m, Family::History, listing),
        is_open(m, url, t, h),
        h.url == url,
        h.status == RecordStatus::Recording,
        !tasks.contains_key(url),
    ensures
        is_closed(recovered(m, tasks, listed_rows(m, listing), now), url, t, h, now),
        status_of(recovered(m, tasks, listed_rows(m, listing), now), url)
            == RecordStatus::NotRecording,
{
    let key = history_key(url, t as int);
    lemma_family_key_prefix(Family::History, history_name(url, t as int));
    assert(m.contains_key(key));
    let j = choose|j: int| 0 <= j < listing.len() && #[trigger] listing[j].0@ == key;
    assert(m.contains_key(listing[j].0@) && m[listing[j].0@] == listing[j].1@);
    lemma_listed_rows_hold(m, listing, j);
    let rows = listed_rows(m, listing);
    let i = choose|i: int| 0 <= i < rows.len() && #[trigger] rows[i] == with_live(h, m);
    lemma_recovery_closes(m, tasks, rows, i, t, h, now);
}

// ---------------------------------------------------------------------------
// Stopping everything
// ---------------------------------------------------------------------------
proof fn lemma_ended_all_keeps(
    m: Entries,
    urls: Seq<String>,
    url: Seq<char>,
    t: i64,
    h: RecordingHistoryView,
    now: i64,
)
    requires
        is_open(m, url, t, h) || is_closed(m, url, t, h, now),
    ensures
        is_open(ended_all(m, urls, now), url, t, h) || is_closed(
            ended_all(m, urls, now),
            url,
            t,
            h,
            now,
        ),
        is_closed(m, url, t, h, now) ==> is_closed(ended_all(m, urls, now), url, t, h, now),
    decreases urls.len(),
{
    if urls.len() > 0 {
        lemma_ended_all_keeps(m, urls.drop_last(), url, t, h, now);
        let before = ended_all(m, urls.drop_last(), now);
        lemma_end_keeps(before, urls.last()@, now, url, t, h, now);
        if urls.last()@ == url && is_open(before, url, t, h) {
            lemma_end_closes(before, url, t, h, now);
        }
    }
}

/// Stopping everything closes every open capture that it goes through:
/// afterwards the channel has no lock, and the row says that the capture is
/// over and that it ended at the time of the stop.
pub proof fn lemma_stop_all_closes(
    m: Entries,
    urls: Seq<String>,
    i: int,
    t: i64,
    h: RecordingHistoryView,
    now: i64,
)
    requires
        0 <= i < urls.len(),
        is_open(m, urls[i]@, t, h),
    ensures
        is_closed(ended_all(m, urls, now), urls[i]@, t, h, now),
        status_of(ended_all(m, urls, now), urls[i]@) == RecordStatus::NotRecording,
    decreases urls.len(),
{
    let url = urls[i]@;
    let before = ended_all(m, urls.drop_last(), now);
    if i == urls.len() - 1 {
        lemma_ended_all_keeps(m, urls.drop_last(), url, t, h, now);
        if is_open(before, url, t, h) {
            lemma_end_closes(before, url, t, h, now);
        } else {
            lemma_end_keeps(before, url, now, url, t, h, now);
        }
    } else {
        assert(urls.drop_last()[i] == urls[i]);
        lemma_stop_all_closes(m, urls.drop_last(), i, t, h, now);
        lemma_end_keeps(before, urls.last()@, now, url, t, h, now);
    }
}

// ---------------------------------------------------------------------------
// The health check
// ---------------------------------------------------------------------------
/// The capture of `url` is either registered and open, or let go of and
/// closed.
pub open spec fn reaped_or_pending(
    state: (Map<Seq<char>, u32>, Entries),
    url: Seq<char>,
    t: i64,
    h: RecordingHistoryView,
    now: i64,
) -> bool {
    ||| (state.0.contains_key(url) && is_open(state.1, url, t, h))
    ||| (!state.0.contains_key(url) && is_closed(state.1, url, t, h, now))
}

proof fn lemma_reap_step_keeps(
    state: (Map<Seq<char>, u32>, Entries),
    other: Seq<char>,
    probe: ProbeState,
    url: Seq<char>,
    t: i64,
    h: RecordingHistoryView,
    now: i64,
)
    requires
        reaped_or_pending(state, url, t, h, now),
    ensures
        reaped_or_pending(reap_step(state, other, probe, now), url, t, h, now),
        !state.0.contains_key(url) ==> !reap_step(state, other, probe, now).0.contains_key(url),
        other == url && probe == ProbeState::Exited ==> !reap_step(
            state,
            other,
            probe,
            now,
        ).0.contains_key(url),
{
    lemma_end_keeps(state.1, other, now, url, t, h, now);
    if other == url && probe == ProbeState::Exited && state.0.contains_key(url) {
        lemma_end_closes(state.1, url, t, h, now);
    }
}

proof fn lemma_reaped_keeps(
    tasks: Map<Seq<char>, u32>,
    m: Entries,
    probes: Seq<(String, ProbeState)>,
    url: Seq<char>,
    t: i64,
    h: RecordingHistoryView,
    now: i64,
)
    requires
        reaped_or_pending((tasks, m), url, t, h, now),
    ensures
        reaped_or_pending(reaped(tasks, m, probes, now), url, t, h, now),
        !tasks.contains_key(url) ==> !reaped(tasks, m, probes, now).0.contains_key(url),
    decreases probes.len(),
{
    if probes.len() > 0 {
        lemma_reaped_keeps(tasks, m, probes.drop_last(), url, t, h, now);
        lemma_reap_step_keeps(
            reaped(tasks, m, probes.drop_last(), now),
            probes.last().0@,
            probes.last().1,
            url,
            t,
            h,
            now,
        );
    }
}

/// The health check reaps. Where a capture is registered and open and one of
/// the probes found its process ended, one round lets go of the process,
/// removes the lock and closes the row: afterwards the channel is not being
/// recorded, and the row says that the capture is over and that it ended at
/// the time of the round.
pub proof fn lemma_health_check_reaps(
    tasks: Map<Seq<char>, u32>,
    m: Entries,
    probes: Seq<(String, ProbeState)>,
    i: int,
    t: i64,
    h: RecordingHistoryView,
    now: i64,
)
    requires
        0 <= i < probes.len(),
        probes[i].1 == ProbeState::Exited,
        tasks.contains_key(probes[i].0@),
        is_open(m, probes[i].0@, t, h),
    ensures
        !reaped(tasks, m, probes, now).0.contains_key(probes[i].0@),
        is_closed(reaped(tasks, m, probes, now).1, probes[i].0@, t, h, now),
        status_of(reaped(tasks, m, probes, now).1, probes[i].0@) == RecordStatus::NotRecording,
        row_at(reaped(tasks, m, probes, now).1, probes[i].0@, t)->Some_0.end_time == now,
    decreases probes.len(),
{
    let url = probes[i].0@;
    let before = reaped(tasks, m, probes.drop_last(), now);
    if i == probes.len() - 1 {
        lemma_reaped_keeps(tasks, m, probes.drop_last(), url, t, h, now);
        lemma_reap_step_keeps(before, url, ProbeState::Exited, url, t, h, now);
    } else {
        assert(probes.drop_last()[i] == probes[i]);
        lemma_health_check_reaps(tasks, m, probes.drop_last(), i, t, h, now);
        lemma_reap_step_keeps(before, probes.last().0@, probes.last().1, url, t, h, now);
    }
}

/// A capture of no probed process is left alone: the health check changes the
/// registry entry, the lock and the rows of a channel only where a probe of
/// that channel found the process ended.
pub proof fn lemma_health_check_spares(
    tasks: Map<Seq<char>, u32>,
    m: Entries,
    probes: Seq<(String, ProbeState)>,
    url: Seq<char>,
    t: i64,
    now: i64,
)
    requires
        forall|i: int| 0 <= i < probes.len() ==> (#[trigger] probes[i]).0@ != url || probes[i].1
            != ProbeState::Exited,
    ensures
        reaped(tasks, m, probes, now).0.contains_key(url) == tasks.contains_key(url),
        lock_entry(reaped(tasks, m, probes, now).1, url) == lock_entry(m, url),
        row_entry(reaped(tasks, m, probes, now).1, url, t) == row_entry(m, url, t),
    decreases probes.len(),
{
    if probes.len() > 0 {
        assert forall|i: int| 0 <= i < probes.drop_last().len() implies (
        #[trigger] probes.drop_last()[i]).0@ != url || probes.drop_last()[i].1
            != ProbeState::Exited by {
            assert(probes.drop_last()[i] == probes[i]);
        }
        lemma_health_check_spares(tasks, m, probes.drop_last(), url, t, now);
        let before = reaped(tasks, m, probes.drop_last(), now);
        let last = probes[probes.len() - 1];
        assert(last == probes.last());
        if last.0@ != url {
            lemma_end_elsewhere(before.1, last.0@, now, url, t);
        }
    }
}

// ---------------------------------------------------------------------------
// Locks and their rows
// ---------------------------------------------------------------------------
/// Every lock points at a stored row of its channel that says that the
/// capture runs. Starting and ending captures keeps a store in this state;
/// removing the row of a running capture by hand does not.
pub open spec fn locks_have_rows(m: Entries) -> bool {
    forall|url: Seq<char>| #[trigger]
        is_locked(m, url) ==> {
            &&& lock_start(lock_entry(m, url)) is Ok
            &&& row_at(m, url, lock_start(lock_entry(m, url))->Ok_0) matches Some(h) && h.url
                == url && h.status == RecordStatus::Recording
        }
}

/// Recording a new capture leaves the lock and the rows of every other
/// channel as they are.
pub proof fn lemma_add_elsewhere(m: Entries, h: RecordingHistoryView, url: Seq<char>, t: i64)
    requires
        add_outcome(m, h) is Ok,
        h.url != url,
    ensures
        lock_entry(add_outcome(m, h)->Ok_0, url) == lock_entry(m, url),
        row_entry(add_outcome(m, h)->Ok_0, url, t) == row_entry(m, url, t),
{
    lemma_family_key_injective(Family::Recording, h.url, url);
    lemma_lock_is_no_row(url, h.url, h.start_time as int);
    lemma_lock_is_no_row(h.url, url, t as int);
    lemma_history_keys_differ(h.url, h.start_time as int, url, t as int);
}

/// Recording a new capture leaves the rows of all other captures as they
/// are, those of the same channel too.
pub proof fn lemma_add_keeps_rows(m: Entries, h: RecordingHistoryView, url: Seq<char>, t: i64)
    requires
        add_outcome(m, h) is Ok,
        url != h.url || t != h.start_time,
    ensures
        row_entry(add_outcome(m, h)->Ok_0, url, t) == row_entry(m, url, t),
{
    lemma_lock_is_no_row(h.url, url, t as int);
    lemma_history_key_injective(h.url, h.start_time as int, url, t as int);
}

/// Ending a capture leaves the rows of all other captures as they are, those
/// of the same channel too.
pub proof fn lemma_end_keeps_rows(m: Entries, ended_url: Seq<char>, now: i64, url: Seq<char>, t: i64)
    requires
        url != ended_url || lock_start(lock_entry(m, ended_url)) != Ok::<i64, RecordError>(t),
    ensures
        row_entry(ended(m, ended_url, now), url, t) == row_entry(m, url, t),
{
    if end_outcome(m, ended_url, now) is Ok {
        let started = remove_lock(m, ended_url)->Ok_0.1;
        lemma_lock_is_no_row(ended_url, url, t as int);
        lemma_history_key_injective(ended_url, started as int, url, t as int);
    }
}

/// Recording a new capture keeps every lock with its row.
pub proof fn lemma_add_keeps_locks_with_rows(m: Entries, h: RecordingHistoryView)
    requires
        locks_have_rows(m),
        history_fits(h),
        h.status == RecordStatus::Recording,
        add_outcome(m, h) is Ok,
    ensures
        locks_have_rows(add_outcome(m, h)->Ok_0),
{
    let after = add_outcome(m, h)->Ok_0;
    lemma_added_is_open(m, h);
    assert forall|url: Seq<char>| #[trigger] is_locked(after, url) implies {
        &&& lock_start(lock_entry(after, url)) is Ok
        &&& row_at(after, url, lock_start(lock_entry(after, url))->Ok_0) matches Some(x) && x.url
            == url && x.status == RecordStatus::Recording
    } by {
        if url != h.url {
            lemma_add_elsewhere(m, h, url, 0);
            assert(is_locked(m, url));
            let t = lock_start(lock_entry(m, url))->Ok_0;
            lemma_add_elsewhere(m, h, url, t);
        }
    }
}

/// Ending a capture keeps every lock with its row.
pub proof fn lemma_end_keeps_locks_with_rows(m: Entries, url: Seq<char>, now: i64)
    requires
        locks_have_rows(m),
    ensures
        locks_have_rows(ended(m, url, now)),
{
    let after = ended(m, url, now);
    assert forall|other: Seq<char>| #[trigger] is_locked(after, other) implies {
        &&& lock_start(lock_entry(after, other)) is Ok
        &&& row_at(after, other, lock_start(lock_entry(after, other))->Ok_0) matches Some(x)
            && x.url == other && x.status == RecordStatus::Recording
    } by {
        if other != url {
            lemma_end_elsewhere(m, url, now, other, 0);
            assert(is_locked(m, other));
            let t = lock_start(lock_entry(m, other))->Ok_0;
            lemma_end_elsewhere(m, url, now, other, t);
        } else if end_outcome(m, url, now) is Ok {
            let t = remove_lock(m, url)->Ok_0.1;
            lemma_lock_is_no_row(url, url, t as int);
        }
    }
}

/// Ending captures creates no lock.
pub proof fn lemma_recovery_locks_nothing(
    m: Entries,
    tasks: Map<Seq<char>, u32>,
    rows: Seq<RecordingHistoryView>,
    now: i64,
    url: Seq<char>,
)
    requires
        !is_locked(m, url),
    ensures
        !is_locked(recovered(m, tasks, rows, now), url),
    decreases rows.len(),
{
    if rows.len() > 0 {
        lemma_recovery_locks_nothing(m, tasks, rows.drop_last(), now, url);
        let before = recovered(m, tasks, rows.drop_last(), now);
        let other = rows.last().url;
        if end_outcome(before, other, now) is Ok {
            let t = remove_lock(before, other)->Ok_0.1;
            lemma_lock_is_no_row(url, other, t as int);
        }
    }
}

/// After recovery no lock is stale. Where every lock of the store has its
/// row, recovery over the rows of the store leaves a lock only to channels
/// that have a registered process.
pub proof fn lemma_recovery_leaves_no_stale_lock(
    m: Entries,
    tasks: Map<Seq<char>, u32>,
    listing: Seq<(String, Vec<u8>)>,
    now: i64,
)
    requires
        locks_have_rows(m),
        is_family_listing(m, Family::History, listing),
    ensures
        forall|url: Seq<char>|
            !tasks.contains_key(url) ==> !(#[trigger] is_locked(
                recovered(m, tasks, listed_rows(m, listing), now),
                url,
            )),
{
    let rows = listed_rows(m, listing);
    assert forall|url: Seq<char>| !tasks.contains_key(url) implies !(#[trigger] is_locked(
        recovered(m, tasks, rows, now),
        url,
    )) by {
        if is_locked(m, url) {
            let t = lock_start(lock_entry(m, url))->Ok_0;
            let h = row_at(m, url, t)->Some_0;
            lemma_recovery_closes_stored(m, tasks, listing, url, t, h, now);
        } else {
            lemma_recovery_locks_nothing(m, tasks, rows, now, url);
        }
    }
}

} // verus!
