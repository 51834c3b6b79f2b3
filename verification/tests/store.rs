use liveship::error::{RecordError, StoreFault};
use liveship::keys::Family;
use liveship::kv::{config, history, live, plan, query_history, recording, Store};
use liveship::model::{
    AppConfig, LiveInfo, LiveStatus, PlatformKind, QueryHistory, RecordStatus, RecordingHistory,
    RecordingPlan, Stream, StreamingProtocol,
};

fn empty_store() -> Store {
    let db = redb::Database::builder()
        .create_with_backend(redb::backends::InMemoryBackend::new())
        .unwrap();
    Store::new(db).unwrap()
}

fn live_of(url: &str, name: &str) -> LiveInfo {
    LiveInfo {
        url: url.to_string(),
        anchor_name: name.to_string(),
        anchor_avatar: String::new(),
        title: String::new(),
        status: LiveStatus::Live,
        viewer_count: String::new(),
        room_cover: String::new(),
        streams: vec![Stream {
            url: "s1".to_string(),
            resolution: "default".to_string(),
            protocol: StreamingProtocol::Flv,
        }],
        platform_kind: PlatformKind::Douyin,
    }
}

#[test]
fn test_kv() {
    let db = redb::Database::builder()
        .create_with_backend(redb::backends::InMemoryBackend::new())
        .unwrap();
    Store::new(db).unwrap();
}

#[test]
fn store_reads_what_was_written() {
    let mut store = empty_store();
    assert_eq!(store.read("k").unwrap(), None);
    store.write("k", b"v1").unwrap();
    assert_eq!(store.read("k").unwrap(), Some(b"v1".to_vec()));
    store.write("k", b"v2").unwrap();
    assert_eq!(store.read("k").unwrap(), Some(b"v2".to_vec()));
    store.erase("k").unwrap();
    assert_eq!(store.read("k").unwrap(), None);
    // Erasing what is not there is no error.
    store.erase("k").unwrap();
    store.write_both("a", b"1", "b", b"2").unwrap();
    assert_eq!(store.read("a").unwrap(), Some(b"1".to_vec()));
    assert_eq!(store.read("b").unwrap(), Some(b"2".to_vec()));
    store.replace("a", "c", b"3").unwrap();
    assert_eq!(store.read("a").unwrap(), None);
    assert_eq!(store.read("b").unwrap(), Some(b"2".to_vec()));
    assert_eq!(store.read("c").unwrap(), Some(b"3".to_vec()));
}

#[test]
fn scan_lists_one_family_in_key_order() {
    let mut store = empty_store();
    store.write("plan:b", b"2").unwrap();
    store.write("plan:a", b"1").unwrap();
    store.write("plan;", b"x").unwrap();
    store.write("plan", b"x").unwrap();
    store.write("plam:z", b"x").unwrap();
    store.write("planz", b"x").unwrap();
    store.write("polling_time", b"x").unwrap();
    store.write("history:a:1", b"h").unwrap();
    store.write("plan:", b"0").unwrap();
    let listing = store.scan(Family::Plan).unwrap();
    assert_eq!(
        listing,
        vec![
            ("plan:".to_string(), b"0".to_vec()),
            ("plan:a".to_string(), b"1".to_vec()),
            ("plan:b".to_string(), b"2".to_vec()),
        ]
    );
    assert_eq!(store.scan(Family::History).unwrap().len(), 1);
    assert!(store.scan(Family::Live).unwrap().is_empty());
}

#[test]
fn lock_round_trip_returns_the_start_time() {
    let mut store = empty_store();
    assert!(!recording::is_exist(&store, "A").unwrap());
    recording::add(&mut store, "A", 1715939773000).unwrap();
    assert!(recording::is_exist(&store, "A").unwrap());
    assert!(!recording::is_exist(&store, "B").unwrap());
    assert_eq!(
        store.read("recording:A").unwrap(),
        Some(1715939773000i64.to_be_bytes().to_vec())
    );
    assert_eq!(recording::delete(&mut store, "A").unwrap(), 1715939773000);
    assert!(!recording::is_exist(&store, "A").unwrap());
    assert_eq!(store.read("recording:A").unwrap(), None);
    // Negative start times come back too.
    recording::add(&mut store, "A", -1).unwrap();
    assert_eq!(recording::delete(&mut store, "A").unwrap(), -1);
}

#[test]
fn a_channel_has_at_most_one_lock() {
    let mut store = empty_store();
    recording::add(&mut store, "A", 1).unwrap();
    assert!(matches!(recording::add(&mut store, "A", 2), Err(RecordError::AlreadyRecording)));
    // The first lock stands.
    assert_eq!(store.read("recording:A").unwrap(), Some(1i64.to_be_bytes().to_vec()));
    recording::add(&mut store, "B", 3).unwrap();
    assert_eq!(recording::delete(&mut store, "A").unwrap(), 1);
    assert_eq!(recording::delete(&mut store, "B").unwrap(), 3);
}

#[test]
fn removing_a_missing_or_malformed_lock_fails() {
    let mut store = empty_store();
    assert!(matches!(recording::delete(&mut store, "A"), Err(RecordError::NotRecording)));
    store.write("recording:A", b"short").unwrap();
    assert!(matches!(
        recording::delete(&mut store, "A"),
        Err(RecordError::StoreFailure(StoreFault::Malformed))
    ));
    // Nothing was removed.
    assert!(recording::is_exist(&store, "A").unwrap());
    assert_eq!(
        recording::read_lock_start(&Some(5i64.to_be_bytes().to_vec())).unwrap(),
        5
    );
    assert!(matches!(recording::read_lock_start(&None), Err(RecordError::NotRecording)));
    assert_eq!(recording::lock_value(258), vec![0, 0, 0, 0, 0, 0, 1, 2]);
}

#[test]
fn history_add_creates_lock_and_row_together() {
    let mut store = empty_store();
    let row = RecordingHistory::new_at("A", "/v/a.ts", 1000);
    liveship::kv::history::add(&mut store, &row).unwrap();
    assert!(recording::is_exist(&store, "A").unwrap());
    let stored = history::get(&store, "A", 1000).unwrap();
    assert_eq!(stored.status, RecordStatus::Recording);
    assert_eq!(stored.start_time, 1000);
    assert_eq!(stored.end_time, 0);
    assert_eq!(stored.path, "/v/a.ts");
    assert!(store.read("history:A:1000").unwrap().is_some());

    // A second capture of the channel is refused and leaves no row.
    let second = RecordingHistory::new_at("A", "/v/b.ts", 2000);
    assert!(matches!(
        liveship::kv::history::add(&mut store, &second),
        Err(RecordError::AlreadyRecording)
    ));
    assert!(matches!(
        history::get(&store, "A", 2000),
        Err(RecordError::StoreFailure(StoreFault::HistoryNotFound))
    ));
    assert_eq!(history::get_all(&store).unwrap().len(), 1);
}

#[test]
fn history_end_closes_the_row_and_removes_the_lock() {
    let mut store = empty_store();
    let row = RecordingHistory::new_at("A", "/v/a.ts", 1000);
    liveship::kv::history::add(&mut store, &row).unwrap();
    history::end_at(&mut store, "A", 5000).unwrap();
    assert!(!recording::is_exist(&store, "A").unwrap());
    let closed = history::get(&store, "A", 1000).unwrap();
    assert_eq!(closed.status, RecordStatus::NotRecording);
    assert_eq!(closed.end_time, 5000);
    assert_eq!(closed.start_time, 1000);
    assert_eq!(closed.path, "/v/a.ts");
    // Ending again finds no lock and changes nothing.
    assert!(matches!(history::end_at(&mut store, "A", 6000), Err(RecordError::NotRecording)));
    assert_eq!(history::get(&store, "A", 1000).unwrap().end_time, 5000);
    // The channel can be recorded again.
    let again = RecordingHistory::new_at("A", "/v/c.ts", 7000);
    liveship::kv::history::add(&mut store, &again).unwrap();
    history::end(&mut store, "A").unwrap();
    let closed = history::get(&store, "A", 7000).unwrap();
    assert_eq!(closed.status, RecordStatus::NotRecording);
    assert!(closed.end_time > 0);
    assert!(RecordingHistory::new("A", "p").start_time >= 0);
    assert_eq!(history::get_all(&store).unwrap().len(), 2);
}

#[test]
fn history_end_without_its_row_changes_nothing() {
    let mut store = empty_store();
    recording::add(&mut store, "A", 1000).unwrap();
    assert!(matches!(
        history::end_at(&mut store, "A", 5000),
        Err(RecordError::StoreFailure(StoreFault::HistoryNotFound))
    ));
    assert!(recording::is_exist(&store, "A").unwrap());
    store.write("history:A:1000", b"junk").unwrap();
    assert!(matches!(
        history::end_at(&mut store, "A", 5000),
        Err(RecordError::StoreFailure(StoreFault::Malformed))
    ));
    assert!(recording::is_exist(&store, "A").unwrap());
    assert_eq!(store.read("history:A:1000").unwrap(), Some(b"junk".to_vec()));
    assert!(matches!(
        history::close_row(&None, 1),
        Err(RecordError::StoreFailure(StoreFault::HistoryNotFound))
    ));
    let bytes = RecordingHistory::new_at("A", "p", 3).to_bytes();
    let closed = RecordingHistory::from_bytes(&history::close_row(&Some(bytes), 9).unwrap()).unwrap();
    assert_eq!(closed.end_time, 9);
    assert_eq!(closed.status, RecordStatus::NotRecording);
}

#[test]
fn histories_are_listed_latest_first_with_cached_descriptors() {
    let mut store = empty_store();
    for (url, start) in [("B", 20), ("A", 30), ("C", 10), ("D", 30)] {
        let row = RecordingHistory::new_at(url, "p", start);
        liveship::kv::history::add(&mut store, &row).unwrap();
    }
    let mut with_own = RecordingHistory::new_at("E", "p", 5);
    with_own.live_info = Some(live_of("E", "own"));
    liveship::kv::history::add(&mut store, &with_own).unwrap();
    live::add(&mut store, &live_of("A", "cached")).unwrap();
    live::add(&mut store, &live_of("E", "cached")).unwrap();
    store.write("history:Z:1", b"junk").unwrap();

    let rows = history::get_all(&store).unwrap();
    let order: Vec<(&str, i64)> = rows.iter().map(|r| (r.url.as_str(), r.start_time)).collect();
    // Rows that began at the same time stay in key order.
    assert_eq!(order, vec![("A", 30), ("D", 30), ("B", 20), ("C", 10), ("E", 5)]);
    assert_eq!(rows[0].live_info.as_ref().unwrap().anchor_name, "cached");
    assert!(rows[1].live_info.is_none());
    assert_eq!(rows[4].live_info.as_ref().unwrap().anchor_name, "own");

    history::delete(&mut store, "B", 20).unwrap();
    assert_eq!(history::get_all(&store).unwrap().len(), 4);
    // The lock of the channel is left alone.
    assert!(recording::is_exist(&store, "B").unwrap());
}

#[test]
fn plans_are_upserted_switched_and_listed() {
    let mut store = empty_store();
    for (url, created) in [("A", 1), ("B", 3), ("C", 2)] {
        let p = RecordingPlan::new_at(url, StreamingProtocol::Flv, String::new(), None, created);
        liveship::kv::plan::add(&mut store, &p).unwrap();
    }
    live::add(&mut store, &live_of("C", "cee")).unwrap();
    store.write("plan:junk", b"junk").unwrap();
    let all = plan::get_all(&store).unwrap();
    let urls: Vec<&str> = all.iter().map(|p| p.url.as_str()).collect();
    assert_eq!(urls, vec!["B", "C", "A"]);
    assert_eq!(all[1].live_info.as_ref().unwrap().anchor_name, "cee");
    assert!(all[0].live_info.is_none());

    plan::update_status(&mut store, "B", false).unwrap();
    let enabled = plan::get_enabled(&store).unwrap();
    let urls: Vec<&str> = enabled.iter().map(|p| p.url.as_str()).collect();
    assert_eq!(urls, vec!["C", "A"]);
    let b = plan::get(&store, "B".to_string()).unwrap().unwrap();
    assert!(!b.enabled);
    assert_eq!(b.created_at, 3);
    plan::update_status(&mut store, "B", true).unwrap();
    assert_eq!(plan::get_enabled(&store).unwrap().len(), 3);

    assert!(matches!(
        plan::update_status(&mut store, "nobody", true),
        Err(RecordError::StoreFailure(StoreFault::PlanNotFound))
    ));
    assert!(matches!(
        plan::update_status(&mut store, "junk", true),
        Err(RecordError::StoreFailure(StoreFault::Malformed))
    ));
    assert!(matches!(
        plan::get(&store, "junk".to_string()),
        Err(RecordError::StoreFailure(StoreFault::Malformed))
    ));
    assert!(plan::get(&store, "nobody".to_string()).unwrap().is_none());

    // One plan per channel: adding again replaces.
    let newer = RecordingPlan::new_at("A", StreamingProtocol::Hls, "HD".to_string(), None, 9);
    liveship::kv::plan::add(&mut store, &newer).unwrap();
    let all = plan::get_all(&store).unwrap();
    assert_eq!(all.len(), 3);
    assert_eq!(all[0].url, "A");
    assert_eq!(all[0].stream_protocol, StreamingProtocol::Hls);

    plan::delete(&mut store, "A").unwrap();
    plan::delete(&mut store, "A").unwrap();
    assert_eq!(plan::get_all(&store).unwrap().len(), 2);
}

#[test]
fn polling_time_is_remembered() {
    let mut store = empty_store();
    assert_eq!(plan::get_last_polling_time(&store).unwrap(), 0);
    plan::mark_polling_time_at(&mut store, 1715939773000).unwrap();
    assert_eq!(plan::get_last_polling_time(&store).unwrap(), 1715939773000);
    assert_eq!(
        store.read("polling_time").unwrap(),
        Some(1715939773000i64.to_be_bytes().to_vec())
    );
    plan::mark_polling_time(&mut store).unwrap();
    assert!(plan::get_last_polling_time(&store).unwrap() > 1715939773000);
    store.write("polling_time", b"1").unwrap();
    assert!(matches!(
        plan::get_last_polling_time(&store),
        Err(RecordError::StoreFailure(StoreFault::Malformed))
    ));
}

#[test]
fn config_falls_back_until_it_is_set() {
    let mut store = empty_store();
    let fallback = AppConfig::with_save_path("/videos/liveship".to_string());
    let got = config::get(&store, fallback.clone()).unwrap();
    assert_eq!(got.ffmpeg_path, "ffmpeg");
    assert_eq!(got.save_path, "/videos/liveship");
    assert_eq!(got.live_info_check_interval, 60);
    let chosen = AppConfig {
        ffmpeg_path: "/opt/ffmpeg".to_string(),
        save_path: "/data".to_string(),
        live_info_check_interval: 5,
    };
    config::set(&mut store, &chosen).unwrap();
    let got = config::get(&store, fallback.clone()).unwrap();
    assert_eq!(got.ffmpeg_path, "/opt/ffmpeg");
    assert_eq!(got.save_path, "/data");
    assert_eq!(got.live_info_check_interval, 5);
    store.write("config", b"junk").unwrap();
    assert!(matches!(
        config::get(&store, fallback),
        Err(RecordError::StoreFailure(StoreFault::Malformed))
    ));
}

#[test]
fn live_descriptors_are_cached_by_channel() {
    let mut store = empty_store();
    assert!(live::get(&store, "A").unwrap().is_none());
    live::add(&mut store, &live_of("B", "bee")).unwrap();
    live::add(&mut store, &live_of("A", "old")).unwrap();
    live::add(&mut store, &live_of("A", "new")).unwrap();
    assert_eq!(live::get(&store, "A").unwrap().unwrap().anchor_name, "new");
    assert_eq!(live::lookup(&store, "A").unwrap().unwrap().streams[0].url, "s1");
    let all = live::get_all(&store).unwrap();
    let names: Vec<&str> = all.iter().map(|l| l.anchor_name.as_str()).collect();
    assert_eq!(names, vec!["new", "bee"]);
    store.write("live:C", b"junk").unwrap();
    assert!(matches!(
        live::get(&store, "C"),
        Err(RecordError::StoreFailure(StoreFault::Malformed))
    ));
    assert!(live::lookup(&store, "C").unwrap().is_none());
    assert_eq!(live::get_all(&store).unwrap().len(), 2);
    live::delete(&mut store, "A").unwrap();
    assert!(live::get(&store, "A").unwrap().is_none());
}

#[test]
fn lookups_are_listed_in_descending_key_order() {
    let mut store = empty_store();
    let q = |url: &str, name: &str| QueryHistory {
        url: url.to_string(),
        anchor_name: name.to_string(),
        platform_kind: "Douyin".to_string(),
        created_at: 0,
    };
    query_history::add_at(&mut store, &q("A", "first"), 100).unwrap();
    query_history::add_at(&mut store, &q("A", "second"), 200).unwrap();
    query_history::add_at(&mut store, &q("B", "third"), 50).unwrap();
    assert!(store.read("query_history:A:100").unwrap().is_some());
    let all = query_history::get_all(&store).unwrap();
    let names: Vec<&str> = all.iter().map(|x| x.anchor_name.as_str()).collect();
    assert_eq!(names, vec!["third", "second", "first"]);
    liveship::kv::query_history::add(&mut store, &q("C", "now")).unwrap();
    assert_eq!(query_history::get_all(&store).unwrap().len(), 4);
}
