//! Recording operations: starting and stopping a capture and asking whether a
//! channel is being recorded. Launching, signalling and awaiting the capture
//! process is the caller's part; what is decided and recorded around it is
//! here.

use crate::error::RecordError;
use crate::keys::{live_key, plan_key, Family};
use crate::kv::config::config_in_force;
use crate::kv::history::{add_post, end_at, end_outcome};
use crate::kv::plan::{listed_plans, plans_view};
use crate::kv::recording::{is_exist, is_locked};
use crate::kv::{is_family_listing, Entries, Store};
use crate::model::{
    fresh_plan, option_or_default, started_history, AppConfig, AppConfigView, LiveInfo,
    LiveInfoView, LiveStatus, PlatformKind, RecordStatus, RecordingHistory, RecordingHistoryView,
    RecordingOption, RecordingOptionView, RecordingPlan, RecordingPlanView, Stream, StreamView,
};
use crate::platform::{lowercase, platform_of};
use crate::registry::{is_key_snapshot, TaskRegistry};
use crate::consistency::{is_open, lemma_added_is_open};
use crate::rows::{history_fits, live_bytes, plan_bytes, stored_history};
use crate::utils::{capture_filename, filename_at, kept, sanitize};
use vstd::prelude::*;
use vstd::string::*;

verus! {

/// What a probe of a capture process found.
#[derive(Clone, Copy, Debug, PartialEq, Eq, Structural)]
pub enum ProbeState {
    /// The process has not ended.
    Running,
    /// The process has ended.
    Exited,
    /// The process could not be asked.
    Failed,
}

/// A capture that was let go of, and how the closing of its history row went.
#[derive(Debug)]
pub struct Reaped {
    pub url: String,
    /// The process that was registered for the channel.
    pub pid: u32,
    pub outcome: Result<(), RecordError>,
}

/// The database itself failed in the attempt.
pub open spec fn hit_backend(outcome: Result<(), RecordError>) -> bool {
    outcome matches Err(e) && e.is_backend()
}

/// No report tells of a failure of the database.
pub open spec fn all_settled(reports: Seq<Reaped>) -> bool {
    forall|i: int| 0 <= i < reports.len() ==> !hit_backend((#[trigger] reports[i]).outcome)
}

/// Whether no report tells of a failure of the database: then the store is
/// exactly as the contract of the procedure says.
pub fn settled(reports: &Vec<Reaped>) -> (b: bool)
    ensures
        b == all_settled(reports@),
{
    let mut i: usize = 0;
    while i < reports.len()
        invariant
            i <= reports@.len(),
            forall|j: int| 0 <= j < i ==> !hit_backend((#[trigger] reports@[j]).outcome),
        decreases reports@.len() - i,
    {
        match &reports[i].outcome {
            Err(e) => {
                if e.database_failed() {
                    return false;
                }
            },
            Ok(()) => {},
        }
        i += 1;
    }
    true
}

/// What the capture tool is to be started with, and where its output goes.
#[derive(Debug)]
pub struct CaptureOrder {
    /// Path of the capture tool.
    pub ffmpeg_path: String,
    /// Address to pull the stream from.
    pub stream_url: String,
    /// Directory under which all captures are saved.
    pub save_root: String,
    /// Directory of the platform, below the root.
    pub platform_dir: String,
    /// Directory of the channel, below that of the platform.
    pub anchor_dir: String,
    /// Name of the file, in the directory of the channel.
    pub filename: String,
    /// Proxy to pull the stream through.
    pub proxy: Option<String>,
}

/// Whether the store says that the channel is being recorded.
pub open spec fn status_of(m: Entries, url: Seq<char>) -> RecordStatus {
    if is_locked(m, url) {
        RecordStatus::Recording
    } else {
        RecordStatus::NotRecording
    }
}

/// The store after an attempt to end the capture of `url`: as `end` leaves
/// it, and unchanged where `end` is refused.
pub open spec fn ended(m: Entries, url: Seq<char>, now: i64) -> Entries {
    match end_outcome(m, url, now) {
        Ok(after) => after,
        Err(_) => m,
    }
}

/// What an attempt to end the capture of `url` reports.
pub open spec fn end_report(m: Entries, url: Seq<char>, now: i64) -> Result<(), RecordError> {
    match end_outcome(m, url, now) {
        Ok(_) => Ok(()),
        Err(e) => Err(e),
    }
}

/// How the closing went that each report tells of.
pub open spec fn outcomes_view(reports: Seq<Reaped>) -> Seq<Result<(), RecordError>> {
    Seq::new(reports.len(), |i: int| reports[i].outcome)
}

/// What the attempts to end the captures of the channels report, one after
/// another.
pub open spec fn end_reports(m: Entries, urls: Seq<String>, now: i64) -> Seq<
    Result<(), RecordError>,
>
    decreases urls.len(),
{
    if urls.len() == 0 {
        Seq::empty()
    } else {
        end_reports(m, urls.drop_last(), now).push(
            end_report(ended_all(m, urls.drop_last(), now), urls.last()@, now),
        )
    }
}

/// The store after attempts to end the captures of the channels, one after
/// another.
pub open spec fn ended_all(m: Entries, urls: Seq<String>, now: i64) -> Entries
    decreases urls.len(),
{
    if urls.len() == 0 {
        m
    } else {
        ended(ended_all(m, urls.drop_last(), now), urls.last()@, now)
    }
}

/// The store as `start_record` leaves it: with the plan of the channel where
/// one is asked for, and with the descriptor cached.
pub open spec fn announced(
    m: Entries,
    auto_record: bool,
    stream: StreamView,
    live: LiveInfoView,
    option: RecordingOptionView,
    now: i64,
) -> Entries {
    let planned = if auto_record {
        m.insert(
            plan_key(live.url),
            plan_bytes(
                RecordingPlanView {
                    live_info: Some(live),
                    ..fresh_plan(live.url, stream.protocol, stream.resolution, option, now)
                },
            ),
        )
    } else {
        m
    };
    planned.insert(live_key(live.url), live_bytes(live))
}

/// The order for a capture under the given configuration.
pub open spec fn order_matches(
    order: CaptureOrder,
    config: AppConfigView,
    stream: StreamView,
    live: LiveInfoView,
    option: RecordingOptionView,
    stamp: Seq<char>,
) -> bool {
    &&& order.ffmpeg_path@ == config.ffmpeg_path
    &&& order.stream_url@ == stream.url
    &&& order.save_root@ == config.save_path
    &&& order.platform_dir@ == live.platform_kind.spec_name()
    &&& order.anchor_dir@ == kept(live.anchor_name)
    &&& order.filename@ == capture_filename(live.anchor_name, stamp)
    &&& (match order.proxy {
        Some(p) => Some(p@),
        None => None,
    }) == option.use_proxy
}

/// Whether the store says that the channel is being recorded. The task
/// registry is not asked.
pub fn record_status(store: &Store, url: &str) -> (r: Result<RecordStatus, RecordError>)
    ensures
        match r {
            Ok(status) => status == status_of(store@, url@),
            Err(e) => e.is_backend(),
        },
{
    match is_exist(store, url) {
        Ok(true) => Ok(RecordStatus::Recording),
        Ok(false) => Ok(RecordStatus::NotRecording),
        Err(e) => Err(e),
    }
}

/// The first part of starting a capture, up to the launch of the process.
/// Stores a plan for the channel where `auto_record` asks for one, caches the
/// descriptor, refuses with `AlreadyRecording` where the channel has a lock,
/// and else says what to launch and where to save: below the configured root,
/// in the directory of the platform, in the directory named by the letters
/// and digits of the channel's name.
pub fn start_record(
    store: &mut Store,
    auto_record: bool,
    stream: &Stream,
    live_info: &LiveInfo,
    option: &Option<RecordingOption>,
    fallback: AppConfig,
    now: i64,
    stamp: &str,
) -> (r: Result<CaptureOrder, RecordError>)
    ensures
        match r {
            Ok(order) => {
                &&& final(store)@ == announced(
                    old(store)@,
                    auto_record,
                    stream@,
                    live_info@,
                    option_or_default(*option),
                    now,
                )
                &&& !is_locked(final(store)@, live_info@.url)
                &&& config_in_force(final(store)@, fallback@) matches Ok(config) && order_matches(
                    order,
                    config,
                    stream@,
                    live_info@,
                    option_or_default(*option),
                    stamp@,
                )
            },
            Err(e) => e.is_backend() || (final(store)@ == announced(
                old(store)@,
                auto_record,
                stream@,
                live_info@,
                option_or_default(*option),
                now,
            ) && if is_locked(final(store)@, live_info@.url) {
                e == RecordError::AlreadyRecording
            } else {
                config_in_force(final(store)@, fallback@) == Err::<AppConfigView, RecordError>(e)
            }),
        },
{
    let chosen = match option {
        Some(o) => o.duplicate(),
        None => RecordingOption::default(),
    };
    if auto_record {
        let mut plan = RecordingPlan::new_at(
            live_info.url.as_str(),
            stream.protocol,
            stream.resolution.clone(),
            Some(chosen.duplicate()),
            now,
        );
        plan.live_info = Some(live_info.duplicate());
        match crate::kv::plan::add(store, &plan) {
            Ok(()) => {},
            Err(e) => {
                return Err(e);
            },
        }
    }
    match crate::kv::live::add(store, live_info) {
        Ok(()) => {},
        Err(e) => {
            return Err(e);
        },
    }
    match is_exist(store, live_info.url.as_str()) {
        Ok(true) => {
            return Err(RecordError::AlreadyRecording);
        },
        Ok(false) => {},
        Err(e) => {
            return Err(e);
        },
    }
    let config = match crate::kv::config::get(store, fallback) {
        Ok(c) => c,
        Err(e) => {
            return Err(e);
        },
    };
    let order = CaptureOrder {
        ffmpeg_path: config.ffmpeg_path,
        stream_url: stream.url.clone(),
        save_root: config.save_path,
        platform_dir: String::from_str(live_info.platform_kind.name()),
        anchor_dir: sanitize(live_info.anchor_name.as_str()),
        filename: filename_at(live_info.anchor_name.as_str(), stamp),
        proxy: chosen.use_proxy,
    };
    assert(order_matches(
        order,
        config@,
        stream@,
        live_info@,
        option_or_default(*option),
        stamp@,
    ));
    Ok(order)
}

/// What the first probe of a launched capture means: the launch has failed,
/// with the output of the process as the reason, unless the process is found
/// running.
pub fn launch_verdict(first_probe: ProbeState, output: String) -> (r: Result<(), RecordError>)
    ensures
        match r {
            Ok(()) => first_probe == ProbeState::Running,
            Err(e) => first_probe != ProbeState::Running && e == RecordError::LaunchFailure(output),
        },
{
    match first_probe {
        ProbeState::Running => Ok(()),
        _ => Err(RecordError::LaunchFailure(output)),
    }
}

/// The row of a capture of the channel of `live` into `path` that began at
/// `now`.
pub open spec fn started_with(live: LiveInfoView, path: Seq<char>, now: i64) -> RecordingHistoryView {
    RecordingHistoryView { live_info: Some(live), ..started_history(live.url, path, now) }
}

/// The second part of starting a capture, after the process `pid` was
/// launched and found running. Registers the process, then creates the lock
/// and the history row in one transaction: on success the registry holds the
/// process for the channel, the lock holds the start time, and the row says
/// that the capture runs. Where the channel has got a lock
/// in the meantime the result is `AlreadyRecording`, and the process stays
/// registered so that it is reaped later. Hands back the process that was
/// registered for the channel before, if any.
pub fn finish_start(
    registry: &mut TaskRegistry,
    store: &mut Store,
    pid: u32,
    path: &str,
    live_info: LiveInfo,
    now: i64,
) -> (r: (Option<u32>, Result<RecordStatus, RecordError>))
    ensures
        final(registry)@ == old(registry)@.insert(live_info@.url, pid),
        r.0 == (if old(registry)@.contains_key(live_info@.url) {
            Some(old(registry)@[live_info@.url])
        } else {
            None
        }),
        add_post(
            old(store)@,
            final(store)@,
            started_with(live_info@, path@, now),
            match r.1 {
                Ok(_) => Ok(()),
                Err(e) => Err(e),
            },
        ),
        r.1 matches Ok(status) ==> status == RecordStatus::Recording && history_fits(
            started_with(live_info@, path@, now),
        ),
        r.1 is Ok ==> final(registry)@.contains_key(live_info@.url)
            && final(registry)@[live_info@.url] == pid && is_open(
            final(store)@,
            live_info@.url,
            now,
            stored_history(started_with(live_info@, path@, now)),
        ) && status_of(final(store)@, live_info@.url) == RecordStatus::Recording,
{
    let displaced = registry.insert(live_info.url.clone(), pid);
    let mut history = RecordingHistory::new_at(live_info.url.as_str(), path, now);
    history.live_info = Some(live_info);
    let ghost before = store@;
    match crate::kv::history::add(store, &history) {
        Ok(()) => {
            proof {
                lemma_added_is_open(before, history@);
            }
            (displaced, Ok(RecordStatus::Recording))
        },
        Err(e) => (displaced, Err(e)),
    }
}

/// Stops the capture of `url` at `now`, after its process, if it had one, was
/// signalled and awaited: lets go of the process whatever came of that, and
/// ends the capture in the store. Stopping a channel that is not being
/// recorded changes nothing and succeeds.
pub fn stop_record(registry: &mut TaskRegistry, store: &mut Store, url: &str, now: i64) -> (r:
    Result<RecordStatus, RecordError>)
    ensures
        final(registry)@ == old(registry)@.remove(url@),
        match r {
            Ok(status) => {
                &&& status == RecordStatus::NotRecording
                &&& final(store)@ == ended(old(store)@, url@, now)
                &&& (end_outcome(old(store)@, url@, now) is Ok || end_outcome(
                    old(store)@,
                    url@,
                    now,
                ) == Err::<Entries, RecordError>(RecordError::NotRecording))
            },
            Err(e) => e.is_backend() || (final(store)@ == old(store)@ && e
                != RecordError::NotRecording && end_outcome(old(store)@, url@, now) == Err::<
                Entries,
                RecordError,
            >(e)),
        },
{
    let _ = registry.remove(url);
    match end_at(store, url, now) {
        Ok(()) => Ok(RecordStatus::NotRecording),
        Err(RecordError::NotRecording) => Ok(RecordStatus::NotRecording),
        Err(e) => Err(e),
    }
}

/// Stops every registered capture at `now`, after the processes were
/// signalled and awaited: empties the registry and ends each capture in the
/// store, going on past failures. Reports each capture with its process.
pub fn stop_all_record(registry: &mut TaskRegistry, store: &mut Store, now: i64) -> (reports: Vec<
    Reaped,
>)
    ensures
        forall|k: Seq<char>| !final(registry)@.contains_key(k),
        exists|keys: Seq<String>|
            {
                &&& is_key_snapshot(old(registry)@, keys)
                &&& reports@.len() == keys.len()
                &&& forall|i: int|
                    0 <= i < keys.len() ==> (#[trigger] reports@[i]).url@ == keys[i]@
                        && reports@[i].pid == old(registry)@[keys[i]@]
                &&& all_settled(reports@) ==> final(store)@ == ended_all(old(store)@, keys, now)
                    && outcomes_view(reports@) == end_reports(old(store)@, keys, now)
            },
{
    let keys = registry.snapshot_keys();
    let mut reports: Vec<Reaped> = Vec::new();
    let mut i: usize = 0;
    assert(keys@.subrange(0, 0) =~= Seq::<String>::empty());
    assert(outcomes_view(reports@) =~= end_reports(old(store)@, keys@.subrange(0, 0), now));
    while i < keys.len()
        invariant
            i <= keys@.len(),
            is_key_snapshot(old(registry)@, keys@),
            forall|k: Seq<char>|
                #![trigger registry@.contains_key(k)]
                registry@.contains_key(k) ==> old(registry)@.contains_key(k),
            forall|j: int|
                i <= j < keys@.len() ==> registry@.contains_key(#[trigger] keys@[j]@)
                    && registry@[keys@[j]@] == old(registry)@[keys@[j]@],
            forall|j: int| 0 <= j < i ==> !registry@.contains_key(#[trigger] keys@[j]@),
            reports@.len() == i,
            forall|j: int|
                0 <= j < i ==> (#[trigger] reports@[j]).url@ == keys@[j]@ && reports@[j].pid
                    == old(registry)@[keys@[j]@],
            all_settled(reports@) ==> store@ == ended_all(
                old(store)@,
                keys@.subrange(0, i as int),
                now,
            ) && outcomes_view(reports@) == end_reports(
                old(store)@,
                keys@.subrange(0, i as int),
                now,
            ),
        decreases keys@.len() - i,
    {
        let url = keys[i].clone();
        let ghost before = store@;
        let ghost listed = reports@;
        let pid = match registry.remove(url.as_str()) {
            Some(p) => p,
            None => 0,
        };
        let outcome = end_at(store, url.as_str(), now);
        proof {
            assert(keys@.subrange(0, i + 1).drop_last() =~= keys@.subrange(0, i as int));
            assert(keys@.subrange(0, i + 1).last() == keys@[i as int]);
            if !hit_backend(outcome) {
                assert(store@ == ended(before, url@, now));
                if outcome is Ok {
                    assert(end_outcome(before, url@, now) is Ok);
                    assert(outcome->Ok_0 == ());
                } else {
                    assert(end_outcome(before, url@, now) == Err::<Entries, RecordError>(
                        outcome->Err_0,
                    ));
                }
                assert(outcome == end_report(before, url@, now));
            }
        }
        let report = Reaped { url, pid, outcome };
        reports.push(report);
        proof {
            assert(reports@[i as int] == report);
            assert(outcomes_view(reports@) =~= outcomes_view(listed).push(report.outcome));
            if all_settled(reports@) {
                assert forall|j: int| 0 <= j < listed.len() implies !hit_backend(
                    (#[trigger] listed[j]).outcome,
                ) by {
                    assert(reports@[j] == listed[j]);
                }
                assert(all_settled(listed));
            }
        }
        i += 1;
    }
    proof {
        assert(keys@.subrange(0, i as int) =~= keys@);
        assert forall|k: Seq<char>| !registry@.contains_key(k) by {
            if registry@.contains_key(k) {
                assert(old(registry)@.contains_key(k));
            }
        }
    }
    reports
}

/// The plans among `plans` whose channel has no registered capture.
pub open spec fn idle_plans(plans: Seq<RecordingPlanView>, tasks: Map<Seq<char>, u32>) -> Seq<
    RecordingPlanView,
>
    decreases plans.len(),
{
    if plans.len() == 0 {
        Seq::empty()
    } else if tasks.contains_key(plans.last().url) {
        idle_plans(plans.drop_last(), tasks)
    } else {
        idle_plans(plans.drop_last(), tasks).push(plans.last())
    }
}

/// The idle plans are exactly the plans whose channel has no registered
/// capture, in their order.
pub proof fn lemma_idle_plans(plans: Seq<RecordingPlanView>, tasks: Map<Seq<char>, u32>)
    ensures
        idle_plans(plans, tasks) == plans.filter(
            |p: RecordingPlanView| !tasks.contains_key(p.url),
        ),
    decreases plans.len(),
{
    reveal(Seq::filter);
    if plans.len() > 0 {
        lemma_idle_plans(plans.drop_last(), tasks);
    }
}

/// The enabled plans whose channel has no registered capture, latest
/// creation first.
pub fn get_plans_not_recording(store: &Store, registry: &TaskRegistry) -> (r: Result<
    Vec<RecordingPlan>,
    RecordError,
>)
    ensures
        match r {
            Ok(plans) => exists|listing: Seq<(String, Vec<u8>)>|
                is_family_listing(store@, Family::Plan, listing) && plans_view(plans@)
                    == idle_plans(listed_plans(store@, listing, true), registry@),
            Err(e) => e.is_backend(),
        },
{
    let enabled = match crate::kv::plan::get_enabled(store) {
        Ok(x) => x,
        Err(e) => {
            return Err(e);
        },
    };
    let ghost all = plans_view(enabled@);
    let mut rest = enabled;
    let mut idle: Vec<RecordingPlan> = Vec::new();
    assert(all.subrange(0, 0) =~= Seq::<RecordingPlanView>::empty());
    assert(all.subrange(0, all.len() as int) =~= all);
    while rest.len() > 0
        invariant
            rest@.len() <= all.len(),
            plans_view(rest@) == all.subrange(all.len() - rest@.len(), all.len() as int),
            plans_view(idle@) == idle_plans(all.subrange(0, all.len() - rest@.len()), registry@),
        decreases rest@.len(),
    {
        let ghost at = all.len() - rest@.len();
        let ghost before = rest@;
        let p = rest.remove(0);
        proof {
            assert(plans_view(before)[0] == p@);
            assert(all[at] == p@);
            assert(all.subrange(0, at + 1).drop_last() =~= all.subrange(0, at));
            assert(all.subrange(0, at + 1).last() == p@);
            assert(plans_view(rest@) =~= all.subrange(at + 1, all.len() as int)) by {
                assert forall|j: int| 0 <= j < rest@.len() implies plans_view(rest@)[j] == all[at
                    + 1 + j] by {
                    assert(rest@[j] == before[j + 1]);
                    assert(plans_view(before)[j + 1] == all.subrange(at, all.len() as int)[j + 1]);
                }
            }
        }
        if !registry.contains_key(p.url.as_str()) {
            assert(plans_view(idle@.push(p)) =~= plans_view(idle@).push(p@));
            idle.push(p);
        }
    }
    Ok(idle)
}

/// The message for an address of no known platform.
fn unknown_platform() -> (m: String)
    ensures
        m@ == "Unknown platform"@,
{
    String::from_str("Unknown platform")
}

/// Stores a plan, made at `now`, for the channel at `url`, where the address
/// is that of a known platform. An address of no known platform is refused
/// without the store being asked.
pub fn add_plan_with_url(store: &mut Store, url: String, now: i64) -> (r: Result<(), RecordError>)
    ensures
        platform_of(lowercase(url@)) == PlatformKind::Unknown ==> final(store)@ == old(store)@
            && (r matches Err(e) && e is ResolverFailure && e.spec_message()
            == "Unknown platform"@),
        platform_of(lowercase(url@)) != PlatformKind::Unknown ==> match r {
            Ok(()) => final(store)@ == old(store)@.insert(
                plan_key(url@),
                plan_bytes(
                    fresh_plan(
                        url@,
                        crate::model::StreamingProtocol::Flv,
                        Seq::empty(),
                        option_or_default(None),
                        now,
                    ),
                ),
            ),
            Err(e) => e.is_backend(),
        },
{
    if PlatformKind::from_url(url.as_str()) == PlatformKind::Unknown {
        return Err(RecordError::ResolverFailure(unknown_platform()));
    }
    let plan = RecordingPlan::new_at(
        url.as_str(),
        crate::model::StreamingProtocol::Flv,
        String::new(),
        None,
        now,
    );
    crate::kv::plan::add(store, &plan)
}

/// The stream to capture a channel from, as a poll decides it: the first
/// stream of the descriptor where the channel is on air, none otherwise.
pub fn pick_stream(live: &LiveInfo) -> (r: Option<Stream>)
    ensures
        match r {
            Some(s) => live@.status == LiveStatus::Live && live@.streams.len() > 0 && s@
                == live@.streams[0],
            None => live@.status != LiveStatus::Live || live@.streams.len() == 0,
        },
{
    if live.status == LiveStatus::Live && live.streams.len() > 0 {
        Some(live.streams[0].duplicate())
    } else {
        None
    }
}

} // verus!
