use liveship::backstage::{
    check_recording_histories, check_tasks, poll_plans, undisturbed, Unclosed,
};
use liveship::error::{RecordError, StoreFault};
use liveship::kv::{history, plan, recording, Store};
use liveship::manager::{
    add_plan_with_url, finish_start, get_plans_not_recording, launch_verdict, pick_stream,
    record_status, settled, start_record, stop_all_record, stop_record, ProbeState, Reaped,
};
use liveship::model::{
    AppConfig, LiveInfo, LiveStatus, PlatformKind, RecordStatus, RecordingHistory,
    RecordingOption, RecordingPlan, Stream, StreamingProtocol,
};
use liveship::registry::TaskRegistry;

fn empty_store() -> Store {
    let db = redb::Database::builder()
        .create_with_backend(redb::backends::InMemoryBackend::new())
        .unwrap();
    Store::new(db).unwrap()
}

fn fallback() -> AppConfig {
    AppConfig::with_save_path("/videos/liveship".to_string())
}

fn stream(url: &str) -> Stream {
    Stream { url: url.to_string(), resolution: "HD".to_string(), protocol: StreamingProtocol::Flv }
}

fn live_of(url: &str, status: LiveStatus, streams: Vec<Stream>) -> LiveInfo {
    LiveInfo {
        url: url.to_string(),
        anchor_name: "An Chor".to_string(),
        anchor_avatar: String::new(),
        title: "t".to_string(),
        status,
        viewer_count: String::new(),
        room_cover: String::new(),
        streams,
        platform_kind: PlatformKind::Douyin,
    }
}

/// Starts a capture as the caller of the library does, with a launch that
/// finds the process `pid` running.
fn start(
    store: &mut Store,
    registry: &mut TaskRegistry,
    url: &str,
    pid: u32,
    now: i64,
) -> Result<RecordStatus, RecordError> {
    let live = live_of(url, LiveStatus::Live, vec![stream("s1")]);
    let order =
        start_record(store, false, &stream("s1"), &live, &None, fallback(), now, "20240517_101613")?;
    launch_verdict(ProbeState::Running, String::new())?;
    let path = format!(
        "{}/{}/{}/{}",
        order.save_root, order.platform_dir, order.anchor_dir, order.filename
    );
    finish_start(registry, store, pid, &path, live, now).1
}

#[test]
fn start_says_what_to_launch_and_where_to_save() {
    let mut store = empty_store();
    let live = live_of("A", LiveStatus::Live, vec![stream("s1")]);
    let option = Some(RecordingOption {
        use_proxy: Some("http://127.0.0.1:7890".to_string()),
        auto_convert_to_mp4: false,
        delete_original_file: false,
    });
    let order = start_record(
        &mut store,
        true,
        &stream("s1"),
        &live,
        &option,
        fallback(),
        1000,
        "20240517_101613",
    )
    .unwrap();
    assert_eq!(order.ffmpeg_path, "ffmpeg");
    assert_eq!(order.stream_url, "s1");
    assert_eq!(order.save_root, "/videos/liveship");
    assert_eq!(order.platform_dir, "Douyin");
    assert_eq!(order.anchor_dir, "AnChor");
    assert_eq!(order.filename, "AnChor_20240517_101613.ts");
    assert_eq!(order.proxy.as_deref(), Some("http://127.0.0.1:7890"));
    // The plan was stored, with the descriptor, and the descriptor cached.
    let stored = plan::get(&store, "A".to_string()).unwrap().unwrap();
    assert!(stored.enabled);
    assert_eq!(stored.created_at, 1000);
    assert_eq!(stored.stream_resolution, "HD");
    assert_eq!(stored.option.use_proxy.as_deref(), Some("http://127.0.0.1:7890"));
    assert_eq!(stored.live_info.unwrap().anchor_name, "An Chor");
    assert!(liveship::kv::live::get(&store, "A").unwrap().is_some());
    // Nothing is locked before the capture runs.
    assert_eq!(record_status(&store, "A").unwrap(), RecordStatus::NotRecording);
    // Without a plan asked for, none is stored.
    let live_b = live_of("B", LiveStatus::Live, vec![stream("s2")]);
    start_record(&mut store, false, &stream("s2"), &live_b, &None, fallback(), 1, "x").unwrap();
    assert!(plan::get(&store, "B".to_string()).unwrap().is_none());
}

#[test]
fn start_uses_the_stored_configuration() {
    let mut store = empty_store();
    let chosen = AppConfig {
        ffmpeg_path: "/opt/ffmpeg".to_string(),
        save_path: "/data".to_string(),
        live_info_check_interval: 5,
    };
    liveship::kv::config::set(&mut store, &chosen).unwrap();
    let live = live_of("A", LiveStatus::Live, vec![stream("s1")]);
    let order =
        start_record(&mut store, false, &stream("s1"), &live, &None, fallback(), 1, "x").unwrap();
    assert_eq!(order.ffmpeg_path, "/opt/ffmpeg");
    assert_eq!(order.save_root, "/data");
    assert!(order.proxy.is_none());
}

#[test]
fn a_launch_that_ended_at_once_has_failed() {
    assert!(launch_verdict(ProbeState::Running, "ignored".to_string()).is_ok());
    match launch_verdict(ProbeState::Exited, "status: 1\nstdout: \nstderr: no input".to_string()) {
        Err(RecordError::LaunchFailure(m)) => {
            assert_eq!(m, "status: 1\nstdout: \nstderr: no input")
        }
        other => panic!("unexpected {:?}", other),
    }
    assert!(matches!(
        launch_verdict(ProbeState::Failed, "x".to_string()),
        Err(RecordError::LaunchFailure(_))
    ));
}

#[test]
fn starting_records_lock_row_and_task() {
    let mut store = empty_store();
    let mut registry = TaskRegistry::new();
    assert_eq!(start(&mut store, &mut registry, "A", 41, 1000).unwrap(), RecordStatus::Recording);
    assert_eq!(record_status(&store, "A").unwrap(), RecordStatus::Recording);
    assert_eq!(registry.get("A"), Some(41));
    let row = history::get(&store, "A", 1000).unwrap();
    assert_eq!(row.status, RecordStatus::Recording);
    assert_eq!(row.end_time, 0);
    assert_eq!(row.path, "/videos/liveship/Douyin/AnChor/AnChor_20240517_101613.ts");
    assert_eq!(row.live_info.unwrap().url, "A");
    assert_eq!(record_status(&store, "B").unwrap(), RecordStatus::NotRecording);
}

#[test]
fn a_second_start_is_refused_before_anything_is_launched() {
    let mut store = empty_store();
    let mut registry = TaskRegistry::new();
    start(&mut store, &mut registry, "A", 41, 1000).unwrap();
    assert!(matches!(
        start(&mut store, &mut registry, "A", 42, 2000),
        Err(RecordError::AlreadyRecording)
    ));
    assert_eq!(registry.get("A"), Some(41));
    assert_eq!(history::get_all(&store).unwrap().len(), 1);
}

#[test]
fn of_two_racing_starts_one_wins() {
    let mut store = empty_store();
    let mut registry = TaskRegistry::new();
    let live = live_of("A", LiveStatus::Live, vec![stream("s1")]);
    // Both pass the check before either has launched.
    start_record(&mut store, false, &stream("s1"), &live, &None, fallback(), 1000, "a").unwrap();
    start_record(&mut store, false, &stream("s1"), &live, &None, fallback(), 1001, "b").unwrap();
    let first = finish_start(&mut registry, &mut store, 41, "/v/a.ts", live.duplicate(), 1000);
    let second = finish_start(&mut registry, &mut store, 42, "/v/b.ts", live.duplicate(), 1001);
    assert_eq!(first.0, None);
    assert_eq!(first.1.unwrap(), RecordStatus::Recording);
    assert!(matches!(second.1, Err(RecordError::AlreadyRecording)));
    // The loser's process stays registered, to be reaped; the winner's is
    // handed back.
    assert_eq!(second.0, Some(41));
    assert_eq!(registry.get("A"), Some(42));
    let rows = history::get_all(&store).unwrap();
    assert_eq!(rows.len(), 1);
    assert_eq!(rows[0].start_time, 1000);
    assert_eq!(rows[0].path, "/v/a.ts");
    assert_eq!(recording::delete(&mut store, "A").unwrap(), 1000);
}

#[test]
fn stop_twice_succeeds_twice() {
    let mut store = empty_store();
    let mut registry = TaskRegistry::new();
    start(&mut store, &mut registry, "A", 41, 1000).unwrap();
    assert_eq!(
        stop_record(&mut registry, &mut store, "A", 3000).unwrap(),
        RecordStatus::NotRecording
    );
    assert!(!registry.contains_key("A"));
    assert_eq!(record_status(&store, "A").unwrap(), RecordStatus::NotRecording);
    let row = history::get(&store, "A", 1000).unwrap();
    assert_eq!(row.status, RecordStatus::NotRecording);
    assert_eq!(row.end_time, 3000);
    assert_eq!(
        stop_record(&mut registry, &mut store, "A", 4000).unwrap(),
        RecordStatus::NotRecording
    );
    assert_eq!(history::get(&store, "A", 1000).unwrap().end_time, 3000);
    // A channel that was never started stops as well.
    assert_eq!(
        stop_record(&mut registry, &mut store, "never", 1).unwrap(),
        RecordStatus::NotRecording
    );
}

#[test]
fn stop_closes_the_store_without_a_registered_process() {
    let mut store = empty_store();
    let mut registry = TaskRegistry::new();
    let row = RecordingHistory::new_at("A", "p", 1000);
    liveship::kv::history::add(&mut store, &row).unwrap();
    assert_eq!(
        stop_record(&mut registry, &mut store, "A", 2000).unwrap(),
        RecordStatus::NotRecording
    );
    assert_eq!(history::get(&store, "A", 1000).unwrap().end_time, 2000);
    // A lock whose row is gone cannot be closed; the process is let go of all
    // the same.
    recording::add(&mut store, "B", 5).unwrap();
    registry.insert("B".to_string(), 7);
    assert!(matches!(
        stop_record(&mut registry, &mut store, "B", 2000),
        Err(RecordError::StoreFailure(StoreFault::HistoryNotFound))
    ));
    assert!(!registry.contains_key("B"));
    assert!(recording::is_exist(&store, "B").unwrap());
}

#[test]
fn stop_all_empties_the_registry_and_closes_every_row() {
    let mut store = empty_store();
    let mut registry = TaskRegistry::new();
    start(&mut store, &mut registry, "A", 41, 1000).unwrap();
    start(&mut store, &mut registry, "B", 42, 1001).unwrap();
    registry.insert("ghost".to_string(), 43);
    let mut reports = stop_all_record(&mut registry, &mut store, 9000);
    reports.sort_by(|a, b| a.url.cmp(&b.url));
    assert_eq!(reports.len(), 3);
    assert_eq!((reports[0].url.as_str(), reports[0].pid), ("A", 41));
    assert!(reports[0].outcome.is_ok());
    assert_eq!((reports[1].url.as_str(), reports[1].pid), ("B", 42));
    assert!(reports[1].outcome.is_ok());
    assert_eq!((reports[2].url.as_str(), reports[2].pid), ("ghost", 43));
    assert!(matches!(reports[2].outcome, Err(RecordError::NotRecording)));
    assert!(registry.is_empty());
    assert!(registry.snapshot_keys().is_empty());
    assert_eq!(history::get(&store, "A", 1000).unwrap().end_time, 9000);
    assert_eq!(history::get(&store, "B", 1001).unwrap().end_time, 9000);
    assert_eq!(record_status(&store, "A").unwrap(), RecordStatus::NotRecording);
    assert!(stop_all_record(&mut registry, &mut store, 9001).is_empty());
}

#[test]
fn recovery_closes_dangling_rows() {
    let mut store = empty_store();
    let mut registry = TaskRegistry::new();
    // Captures that ran when the program was killed: locks and rows, no tasks.
    start(&mut store, &mut registry, "A", 41, 1000).unwrap();
    start(&mut store, &mut registry, "B", 42, 1001).unwrap();
    start(&mut store, &mut registry, "C", 43, 1002).unwrap();
    stop_record(&mut registry, &mut store, "C", 1500).unwrap();
    let registry = {
        let mut fresh = TaskRegistry::new();
        // B is still held by this process and must be left alone.
        fresh.insert("B".to_string(), 42);
        fresh
    };
    let unclosed = check_recording_histories(&mut store, &registry, 7000).unwrap();
    assert!(unclosed.is_empty());
    let a = history::get(&store, "A", 1000).unwrap();
    assert_eq!(a.status, RecordStatus::NotRecording);
    assert_eq!(a.end_time, 7000);
    assert!(!recording::is_exist(&store, "A").unwrap());
    let b = history::get(&store, "B", 1001).unwrap();
    assert_eq!(b.status, RecordStatus::Recording);
    assert!(recording::is_exist(&store, "B").unwrap());
    assert_eq!(history::get(&store, "C", 1002).unwrap().end_time, 1500);
    // Running it again changes nothing.
    assert!(check_recording_histories(&mut store, &registry, 8000).unwrap().is_empty());
    assert_eq!(history::get(&store, "A", 1000).unwrap().end_time, 7000);
}

#[test]
fn recovery_reports_rows_it_cannot_close_and_goes_on() {
    let mut store = empty_store();
    let registry = TaskRegistry::new();
    // A row that says recording, without a lock.
    store.write("history:X:5", &RecordingHistory::new_at("X", "p", 5).to_bytes()).unwrap();
    let row = RecordingHistory::new_at("A", "p", 1000);
    liveship::kv::history::add(&mut store, &row).unwrap();
    let unclosed = check_recording_histories(&mut store, &registry, 7000).unwrap();
    assert_eq!(unclosed.len(), 1);
    assert_eq!(unclosed[0].url, "X");
    assert!(matches!(unclosed[0].reason, RecordError::NotRecording));
    assert_eq!(history::get(&store, "A", 1000).unwrap().end_time, 7000);
    assert_eq!(history::get(&store, "X", 5).unwrap().status, RecordStatus::Recording);
}

#[test]
fn health_check_reaps_exited_processes() {
    let mut store = empty_store();
    let mut registry = TaskRegistry::new();
    start(&mut store, &mut registry, "A", 41, 1000).unwrap();
    start(&mut store, &mut registry, "B", 42, 1001).unwrap();
    start(&mut store, &mut registry, "C", 43, 1002).unwrap();
    let probes = vec![
        ("A".to_string(), ProbeState::Exited),
        ("B".to_string(), ProbeState::Running),
        ("C".to_string(), ProbeState::Failed),
        ("gone".to_string(), ProbeState::Exited),
    ];
    let reports = check_tasks(&mut registry, &mut store, &probes, 6000);
    assert_eq!(reports.len(), 1);
    assert_eq!(reports[0].url, "A");
    assert_eq!(reports[0].pid, 41);
    assert!(reports[0].outcome.is_ok());
    assert!(!registry.contains_key("A"));
    assert_eq!(registry.get("B"), Some(42));
    assert_eq!(registry.get("C"), Some(43));
    let a = history::get(&store, "A", 1000).unwrap();
    assert_eq!(a.status, RecordStatus::NotRecording);
    assert_eq!(a.end_time, 6000);
    assert_eq!(record_status(&store, "A").unwrap(), RecordStatus::NotRecording);
    assert_eq!(record_status(&store, "B").unwrap(), RecordStatus::Recording);
    assert_eq!(record_status(&store, "C").unwrap(), RecordStatus::Recording);
    // Nothing is registered: nothing to do.
    let mut nobody = TaskRegistry::new();
    assert!(check_tasks(&mut nobody, &mut store, &probes, 6001).is_empty());
    assert!(check_tasks(&mut registry, &mut store, &Vec::new(), 6002).is_empty());
}

#[test]
fn health_check_goes_on_past_a_row_that_was_already_closed() {
    let mut store = empty_store();
    let mut registry = TaskRegistry::new();
    start(&mut store, &mut registry, "A", 41, 1000).unwrap();
    start(&mut store, &mut registry, "B", 42, 1001).unwrap();
    history::end_at(&mut store, "A", 2000).unwrap();
    let probes =
        vec![("A".to_string(), ProbeState::Exited), ("B".to_string(), ProbeState::Exited)];
    let reports = check_tasks(&mut registry, &mut store, &probes, 6000);
    assert_eq!(reports.len(), 2);
    assert!(matches!(reports[0].outcome, Err(RecordError::NotRecording)));
    assert!(reports[1].outcome.is_ok());
    assert!(registry.is_empty());
    assert_eq!(history::get(&store, "A", 1000).unwrap().end_time, 2000);
    assert_eq!(history::get(&store, "B", 1001).unwrap().end_time, 6000);
}

#[test]
fn killed_process_is_reaped_on_the_next_round() {
    let mut store = empty_store();
    let mut registry = TaskRegistry::new();
    start(&mut store, &mut registry, "A", 41, 1000).unwrap();
    // The process is killed from outside; the next round probes it.
    let probes: Vec<(String, ProbeState)> = registry
        .snapshot_keys()
        .into_iter()
        .map(|url| (url, ProbeState::Exited))
        .collect();
    check_tasks(&mut registry, &mut store, &probes, 5000);
    let row = history::get(&store, "A", 1000).unwrap();
    assert_eq!(row.end_time, 5000);
    assert_eq!(row.status, RecordStatus::NotRecording);
    assert!(!registry.contains_key("A"));
    assert_eq!(record_status(&store, "A").unwrap(), RecordStatus::NotRecording);
}

#[test]
fn one_poll_starts_a_live_plan_once() {
    let mut store = empty_store();
    let mut registry = TaskRegistry::new();
    let p = RecordingPlan::new_at("A", StreamingProtocol::Flv, String::new(), None, 1);
    liveship::kv::plan::add(&mut store, &p).unwrap();

    let (marked, due) = poll_plans(&mut store, &registry, 10_000);
    assert!(marked);
    assert_eq!(plan::get_last_polling_time(&store).unwrap(), 10_000);
    let due = due.unwrap();
    assert_eq!(due.len(), 1);
    for plan in due {
        // The resolver reports the channel on air with one stream.
        let live = live_of(&plan.url, LiveStatus::Live, vec![stream("s1")]);
        let chosen = pick_stream(&live).unwrap();
        assert_eq!(chosen.url, "s1");
        let order = start_record(
            &mut store,
            false,
            &chosen,
            &live,
            &Some(plan.option.duplicate()),
            fallback(),
            10_001,
            "20240517_101613",
        )
        .unwrap();
        launch_verdict(ProbeState::Running, String::new()).unwrap();
        let status =
            finish_start(&mut registry, &mut store, 41, &order.filename, live, 10_001).1.unwrap();
        assert_eq!(status, RecordStatus::Recording);
    }
    let rows = history::get_all(&store).unwrap();
    assert_eq!(rows.len(), 1);
    assert_eq!(rows[0].url, "A");
    assert_eq!(rows[0].status, RecordStatus::Recording);
    assert_eq!(registry.snapshot_keys(), vec!["A".to_string()]);
    // The next poll finds the channel taken care of.
    let (_, due) = poll_plans(&mut store, &registry, 20_000);
    assert!(due.unwrap().is_empty());
    assert_eq!(plan::get_last_polling_time(&store).unwrap(), 20_000);
}

#[test]
fn a_poll_starts_nothing_off_air() {
    assert!(pick_stream(&live_of("A", LiveStatus::NotLive, vec![stream("s1")])).is_none());
    assert!(pick_stream(&live_of("A", LiveStatus::Unknown, vec![stream("s1")])).is_none());
    assert!(pick_stream(&live_of("A", LiveStatus::Live, Vec::new())).is_none());
    let two = live_of("A", LiveStatus::Live, vec![stream("s1"), stream("s2")]);
    assert_eq!(pick_stream(&two).unwrap().url, "s1");
}

#[test]
fn idle_plans_are_enabled_and_unregistered() {
    let mut store = empty_store();
    let mut registry = TaskRegistry::new();
    for (url, created) in [("A", 1), ("B", 2), ("C", 3), ("D", 4)] {
        let p = RecordingPlan::new_at(url, StreamingProtocol::Flv, String::new(), None, created);
        liveship::kv::plan::add(&mut store, &p).unwrap();
    }
    plan::update_status(&mut store, "C", false).unwrap();
    registry.insert("B".to_string(), 1);
    let idle = get_plans_not_recording(&store, &registry).unwrap();
    let urls: Vec<&str> = idle.iter().map(|p| p.url.as_str()).collect();
    assert_eq!(urls, vec!["D", "A"]);
}

#[test]
fn plans_by_address_need_a_known_platform() {
    let mut store = empty_store();
    add_plan_with_url(&mut store, "https://live.douyin.com/1".to_string(), 5).unwrap();
    let stored = plan::get(&store, "https://live.douyin.com/1".to_string()).unwrap().unwrap();
    assert_eq!(stored.created_at, 5);
    assert!(stored.enabled);
    match add_plan_with_url(&mut store, "https://example.com/1".to_string(), 6) {
        Err(e @ RecordError::ResolverFailure(_)) => assert_eq!(e.message(), "Unknown platform"),
        other => panic!("unexpected {:?}", other),
    }
    assert_eq!(plan::get_all(&store).unwrap().len(), 1);
}

#[test]
fn registry_keeps_one_process_per_channel() {
    let mut registry = TaskRegistry::new();
    assert!(registry.is_empty());
    assert_eq!(registry.insert("A".to_string(), 1), None);
    assert_eq!(registry.insert("B".to_string(), 2), None);
    assert_eq!(registry.insert("A".to_string(), 3), Some(1));
    assert_eq!(registry.get("A"), Some(3));
    assert_eq!(registry.get("C"), None);
    assert!(registry.contains_key("B"));
    assert!(!registry.contains_key("C"));
    let mut keys = registry.snapshot_keys();
    keys.sort();
    assert_eq!(keys, vec!["A".to_string(), "B".to_string()]);
    assert_eq!(registry.remove("A"), Some(3));
    assert_eq!(registry.remove("A"), None);
    assert!(!registry.is_empty());
    assert_eq!(registry.remove("B"), Some(2));
    assert!(registry.is_empty());
}

#[test]
fn reports_tell_whether_the_database_failed() {
    let fine = vec![
        Reaped { url: "A".to_string(), pid: 1, outcome: Ok(()) },
        Reaped { url: "B".to_string(), pid: 2, outcome: Err(RecordError::NotRecording) },
        Reaped {
            url: "C".to_string(),
            pid: 3,
            outcome: Err(RecordError::StoreFailure(StoreFault::HistoryNotFound)),
        },
    ];
    assert!(settled(&fine));
    assert!(settled(&Vec::new()));
    let mut broken = fine;
    broken.push(Reaped {
        url: "D".to_string(),
        pid: 4,
        outcome: Err(RecordError::StoreFailure(StoreFault::Backend("io".to_string()))),
    });
    assert!(!settled(&broken));
    assert!(undisturbed(&vec![Unclosed { url: "A".to_string(), reason: RecordError::NotRecording }]));
    assert!(!undisturbed(&vec![Unclosed {
        url: "A".to_string(),
        reason: RecordError::StoreFailure(StoreFault::Backend("io".to_string())),
    }]));
    assert!(RecordError::StoreFailure(StoreFault::Backend(String::new())).database_failed());
    assert!(!RecordError::StoreFailure(StoreFault::Malformed).database_failed());
    assert!(!RecordError::AlreadyRecording.database_failed());
}
