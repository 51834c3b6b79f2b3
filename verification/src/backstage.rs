//! The procedures that run in the background: recovery at startup, the health
//! check of the running captures, and the poll of the plans.

use crate::error::RecordError;
use crate::keys::{polling_key, Family};
use crate::kv::history::{end_at, end_outcome, histories_view, listed_rows};
use crate::kv::plan::{listed_plans, plans_view};
use crate::kv::{is_family_listing, Entries, Store};
use crate::manager::{
    all_settled, end_report, ended, get_plans_not_recording, hit_backend, idle_plans,
    outcomes_view, ProbeState, Reaped,
};
use crate::model::{AppConfig, RecordStatus, RecordingHistoryView, RecordingPlan};
use crate::registry::TaskRegistry;
use crate::wire::be_bytes_i64;
use vstd::prelude::*;

verus! {

/// A history row that recovery could not close, and why.
#[derive(Debug)]
pub struct Unclosed {
    pub url: String,
    pub reason: RecordError,
}

/// No report tells of a failure of the database.
pub open spec fn none_hit_backend(reports: Seq<Unclosed>) -> bool {
    forall|i: int| 0 <= i < reports.len() ==> !(#[trigger] reports[i]).reason.is_backend()
}

/// Whether no report tells of a failure of the database: then the store is
/// exactly as the contract of recovery says.
pub fn undisturbed(reports: &Vec<Unclosed>) -> (b: bool)
    ensures
        b == none_hit_backend(reports@),
{
    let mut i: usize = 0;
    while i < reports.len()
        invariant
            i <= reports@.len(),
            forall|j: int| 0 <= j < i ==> !(#[trigger] reports@[j]).reason.is_backend(),
        decreases reports@.len() - i,
    {
        if reports[i].reason.database_failed() {
            return false;
        }
        i += 1;
    }
    true
}

/// Whether recovery has to end the capture that the row tells of: the row
/// says that the capture runs, and no process is registered for its channel.
pub open spec fn is_dangling(row: RecordingHistoryView, tasks: Map<Seq<char>, u32>) -> bool {
    row.status == RecordStatus::Recording && !tasks.contains_key(row.url)
}

/// The store after recovery has gone through the rows, one after another.
pub open spec fn recovered(
    m: Entries,
    tasks: Map<Seq<char>, u32>,
    rows: Seq<RecordingHistoryView>,
    now: i64,
) -> Entries
    decreases rows.len(),
{
    if rows.len() == 0 {
        m
    } else {
        let before = recovered(m, tasks, rows.drop_last(), now);
        if is_dangling(rows.last(), tasks) {
            ended(before, rows.last().url, now)
        } else {
            before
        }
    }
}

/// Which row each report tells of, and why it could not be closed.
pub open spec fn unclosed_view(reports: Seq<Unclosed>) -> Seq<(Seq<char>, RecordError)> {
    Seq::new(reports.len(), |i: int| (reports[i].url@, reports[i].reason))
}

/// The rows that recovery cannot close, as it goes through the rows one after
/// another, each with the reason.
pub open spec fn refusals(
    m: Entries,
    tasks: Map<Seq<char>, u32>,
    rows: Seq<RecordingHistoryView>,
    now: i64,
) -> Seq<(Seq<char>, RecordError)>
    decreases rows.len(),
{
    if rows.len() == 0 {
        Seq::empty()
    } else {
        let before = recovered(m, tasks, rows.drop_last(), now);
        let earlier = refusals(m, tasks, rows.drop_last(), now);
        if is_dangling(rows.last(), tasks) {
            match end_outcome(before, rows.last().url, now) {
                Ok(_) => earlier,
                Err(e) => earlier.push((rows.last().url, e)),
            }
        } else {
            earlier
        }
    }
}

/// Recovery, run once at startup before the background loops: ends, at `now`,
/// every capture that a history row says is running while no process is
/// registered for its channel. A row that cannot be closed is reported and
/// passed over.
pub fn check_recording_histories(store: &mut Store, registry: &TaskRegistry, now: i64) -> (r:
    Result<Vec<Unclosed>, RecordError>)
    ensures
        match r {
            Ok(unclosed) => exists|listing: Seq<(String, Vec<u8>)>|
                is_family_listing(old(store)@, Family::History, listing) && (none_hit_backend(
                    unclosed@,
                ) ==> final(store)@ == recovered(
                    old(store)@,
                    registry@,
                    listed_rows(old(store)@, listing),
                    now,
                ) && unclosed_view(unclosed@) == refusals(
                    old(store)@,
                    registry@,
                    listed_rows(old(store)@, listing),
                    now,
                )),
            Err(e) => e.is_backend() && final(store)@ == old(store)@,
        },
{
    let rows = match crate::kv::history::get_all(store) {
        Ok(x) => x,
        Err(e) => {
            return Err(e);
        },
    };
    let ghost all = histories_view(rows@);
    let mut unclosed: Vec<Unclosed> = Vec::new();
    let mut i: usize = 0;
    assert(all.subrange(0, 0) =~= Seq::<RecordingHistoryView>::empty());
    assert(unclosed_view(unclosed@) =~= refusals(old(store)@, registry@, all.subrange(0, 0), now));
    while i < rows.len()
        invariant
            i <= rows@.len(),
            all == histories_view(rows@),
            none_hit_backend(unclosed@) ==> store@ == recovered(
                old(store)@,
                registry@,
                all.subrange(0, i as int),
                now,
            ) && unclosed_view(unclosed@) == refusals(
                old(store)@,
                registry@,
                all.subrange(0, i as int),
                now,
            ),
        decreases rows@.len() - i,
    {
        proof {
            assert(all.subrange(0, i + 1).drop_last() =~= all.subrange(0, i as int));
            assert(all.subrange(0, i + 1).last() == rows@[i as int]@);
        }
        if rows[i].status == RecordStatus::Recording && !registry.contains_key(
            rows[i].url.as_str(),
        ) {
            let ghost before = store@;
            let ghost listed = unclosed@;
            match end_at(store, rows[i].url.as_str(), now) {
                Ok(()) => {},
                Err(reason) => {
                    let report = Unclosed { url: rows[i].url.clone(), reason };
                    unclosed.push(report);
                    proof {
                        assert(unclosed@[listed.len() as int] == report);
                        assert(unclosed_view(unclosed@) =~= unclosed_view(listed).push(
                            (rows@[i as int]@.url, report.reason),
                        ));
                        if none_hit_backend(unclosed@) {
                            assert forall|j: int| 0 <= j < listed.len() implies !(
                            #[trigger] listed[j]).reason.is_backend() by {
                                assert(unclosed@[j] == listed[j]);
                            }
                        }
                    }
                },
            }
        }
        i += 1;
    }
    assert(all.subrange(0, i as int) =~= all);
    Ok(unclosed)
}

/// One step of the health check: a capture whose process was found ended and
/// is registered is let go of, and ended in the store.
pub open spec fn reap_step(
    state: (Map<Seq<char>, u32>, Entries),
    url: Seq<char>,
    probe: ProbeState,
    now: i64,
) -> (Map<Seq<char>, u32>, Entries) {
    if probe == ProbeState::Exited && state.0.contains_key(url) {
        (state.0.remove(url), ended(state.1, url, now))
    } else {
        state
    }
}

/// The registry and the store after the health check has gone through the
/// probes, one after another.
pub open spec fn reaped(
    tasks: Map<Seq<char>, u32>,
    m: Entries,
    probes: Seq<(String, ProbeState)>,
    now: i64,
) -> (Map<Seq<char>, u32>, Entries)
    decreases probes.len(),
{
    if probes.len() == 0 {
        (tasks, m)
    } else {
        reap_step(reaped(tasks, m, probes.drop_last(), now), probes.last().0@, probes.last().1, now)
    }
}

/// Which capture each report of a round tells of: channel and process.
pub open spec fn reports_view(reports: Seq<Reaped>) -> Seq<(Seq<char>, u32)> {
    Seq::new(reports.len(), |i: int| (reports[i].url@, reports[i].pid))
}

/// The captures that the health check lets go of, in the order of the probes,
/// each with the process that was registered for it.
pub open spec fn let_go(
    tasks: Map<Seq<char>, u32>,
    m: Entries,
    probes: Seq<(String, ProbeState)>,
    now: i64,
) -> Seq<(Seq<char>, u32)>
    decreases probes.len(),
{
    if probes.len() == 0 {
        Seq::empty()
    } else {
        let before = reaped(tasks, m, probes.drop_last(), now).0;
        let earlier = let_go(tasks, m, probes.drop_last(), now);
        let url = probes.last().0@;
        if probes.last().1 == ProbeState::Exited && before.contains_key(url) {
            earlier.push((url, before[url]))
        } else {
            earlier
        }
    }
}

/// What the attempts of a round to end the captures report, in the order of
/// the probes.
pub open spec fn round_outcomes(
    tasks: Map<Seq<char>, u32>,
    m: Entries,
    probes: Seq<(String, ProbeState)>,
    now: i64,
) -> Seq<Result<(), RecordError>>
    decreases probes.len(),
{
    if probes.len() == 0 {
        Seq::empty()
    } else {
        let before = reaped(tasks, m, probes.drop_last(), now);
        let earlier = round_outcomes(tasks, m, probes.drop_last(), now);
        let url = probes.last().0@;
        if probes.last().1 == ProbeState::Exited && before.0.contains_key(url) {
            earlier.push(end_report(before.1, url, now))
        } else {
            earlier
        }
    }
}

/// One round of the health check, given what the probes of the registered
/// processes found: every capture whose process has ended is let go of and
/// ended in the store at `now`. A capture whose row cannot be closed is
/// reported with the reason; the round goes on.
pub fn check_tasks(
    registry: &mut TaskRegistry,
    store: &mut Store,
    probes: &Vec<(String, ProbeState)>,
    now: i64,
) -> (reports: Vec<Reaped>)
    ensures
        final(registry)@ == reaped(old(registry)@, old(store)@, probes@, now).0,
        all_settled(reports@) ==> final(store)@ == reaped(
            old(registry)@,
            old(store)@,
            probes@,
            now,
        ).1 && outcomes_view(reports@) == round_outcomes(
            old(registry)@,
            old(store)@,
            probes@,
            now,
        ),
        reports_view(reports@) == let_go(old(registry)@, old(store)@, probes@, now),
        forall|i: int|
            0 <= i < reports@.len() ==> old(registry)@.contains_key((#[trigger] reports@[i]).url@)
                && old(registry)@[reports@[i].url@] == reports@[i].pid,
{
    let mut reports: Vec<Reaped> = Vec::new();
    let mut i: usize = 0;
    assert(probes@.subrange(0, 0) =~= Seq::<(String, ProbeState)>::empty());
    assert(reports_view(reports@) =~= let_go(
        old(registry)@,
        old(store)@,
        probes@.subrange(0, 0),
        now,
    ));
    assert(outcomes_view(reports@) =~= round_outcomes(
        old(registry)@,
        old(store)@,
        probes@.subrange(0, 0),
        now,
    ));
    while i < probes.len()
        invariant
            i <= probes@.len(),
            registry@ == reaped(old(registry)@, old(store)@, probes@.subrange(0, i as int), now).0,
            all_settled(reports@) ==> store@ == reaped(
                old(registry)@,
                old(store)@,
                probes@.subrange(0, i as int),
                now,
            ).1 && outcomes_view(reports@) == round_outcomes(
                old(registry)@,
                old(store)@,
                probes@.subrange(0, i as int),
                now,
            ),
            forall|k: Seq<char>|
                #![trigger registry@.contains_key(k)]
                registry@.contains_key(k) ==> old(registry)@.contains_key(k) && registry@[k] == old(
                    registry,
                )@[k],
            forall|j: int|
                0 <= j < reports@.len() ==> old(registry)@.contains_key(
                    (#[trigger] reports@[j]).url@,
                ) && old(registry)@[reports@[j].url@] == reports@[j].pid,
            reports_view(reports@) == let_go(
                old(registry)@,
                old(store)@,
                probes@.subrange(0, i as int),
                now,
            ),
        decreases probes@.len() - i,
    {
        proof {
            assert(probes@.subrange(0, i + 1).drop_last() =~= probes@.subrange(0, i as int));
            assert(probes@.subrange(0, i + 1).last() == probes@[i as int]);
        }
        if probes[i].1 == ProbeState::Exited {
            let ghost held = registry@;
            match registry.remove(probes[i].0.as_str()) {
                Some(pid) => {
                    let ghost before = store@;
                    let ghost listed = reports@;
                    let outcome = end_at(store, probes[i].0.as_str(), now);
                    proof {
                        if !hit_backend(outcome) {
                            assert(store@ == ended(before, probes@[i as int].0@, now));
                            if outcome is Ok {
                                assert(end_outcome(before, probes@[i as int].0@, now) is Ok);
                                assert(outcome->Ok_0 == ());
                            } else {
                                assert(end_outcome(before, probes@[i as int].0@, now) == Err::<Entries, RecordError>(
                                    outcome->Err_0,
                                ));
                            }
                            assert(outcome == end_report(before, probes@[i as int].0@, now));
                        }
                    }
                    let report = Reaped { url: probes[i].0.clone(), pid, outcome };
                    reports.push(report);
                    proof {
                        assert(reports@[listed.len() as int] == report);
                        assert(reports_view(reports@) =~= reports_view(listed).push(
                            (probes@[i as int].0@, pid),
                        ));
                        assert(outcomes_view(reports@) =~= outcomes_view(listed).push(
                            report.outcome,
                        ));
                        if all_settled(reports@) {
                            assert forall|j: int| 0 <= j < listed.len() implies !hit_backend(
                                (#[trigger] listed[j]).outcome,
                            ) by {
                                assert(reports@[j] == listed[j]);
                            }
                        }
                        assert forall|j: int| 0 <= j < reports@.len() implies old(
                            registry,
                        )@.contains_key((#[trigger] reports@[j]).url@) && old(
                            registry,
                        )@[reports@[j].url@] == reports@[j].pid by {
                            if j < listed.len() {
                                assert(reports@[j] == listed[j]);
                            }
                        }
                    }
                },
                None => {
                    assert(registry@ =~= held);
                },
            }
        }
        i += 1;
    }
    assert(probes@.subrange(0, i as int) =~= probes@);
    reports
}

/// The seconds to wait between two rounds of the poll, from what the read of
/// the configuration gave: the configured interval, but at least one second,
/// and a minute where the configuration cannot be read.
pub open spec fn poll_seconds(config: Result<AppConfig, RecordError>) -> u64 {
    match config {
        Ok(c) => if c.live_info_check_interval == 0 {
            1
        } else {
            c.live_info_check_interval
        },
        Err(_) => 60,
    }
}

/// The seconds to wait between two rounds of the poll, from what the read of
/// the configuration gave. The configuration is read afresh before every
/// round, so that a change of the interval takes effect at once.
pub fn poll_interval(config: &Result<AppConfig, RecordError>) -> (seconds: u64)
    ensures
        seconds == poll_seconds(*config),
        seconds >= 1,
{
    match config {
        Ok(c) => {
            if c.live_info_check_interval == 0 {
                1
            } else {
                c.live_info_check_interval
            }
        },
        Err(_) => 60,
    }
}

/// The start of a round of the poll at `now`: remembers the time of the poll,
/// as far as the store lets it, and lists the enabled plans whose channel has
/// no registered capture. Each of them is then to be resolved, and started
/// where it is on air. The flag tells whether the time was remembered.
pub fn poll_plans(store: &mut Store, registry: &TaskRegistry, now: i64) -> (r: (
    bool,
    Result<Vec<RecordingPlan>, RecordError>,
))
    ensures
        r.0 ==> final(store)@ == old(store)@.insert(polling_key(), be_bytes_i64(now)),
        match r.1 {
            Ok(plans) => exists|listing: Seq<(String, Vec<u8>)>|
                is_family_listing(final(store)@, Family::Plan, listing) && plans_view(plans@)
                    == idle_plans(listed_plans(final(store)@, listing, true), registry@),
            Err(e) => e.is_backend(),
        },
{
    let marked = crate::kv::plan::mark_polling_time_at(store, now).is_ok();
    (marked, get_plans_not_recording(store, registry))
}

} // verus!
