use liveship::error::{RecordError, StoreFault};
use liveship::ffmpeg::{
    build_ffmpeg_convert_command, build_ffmpeg_record_command, ends_with, Conversion,
};
use liveship::kv::config::choose_config;
use liveship::kv::plan::switch_plan;
use liveship::backstage::poll_interval;
use liveship::model::{
    AppConfig, LiveInfo, LiveStatus, PlatformKind, RecordStatus, RecordingHistory, RecordingPlan,
    Stream, StreamingProtocol,
};
use liveship::recorder::{get_platform_impl, judge, start_record_default, Recorder, Resolved};

/// A platform that answers from a script.
struct Scripted {
    status: LiveStatus,
    streams: Vec<&'static str>,
    fails: bool,
}

impl Recorder for Scripted {
    fn get_live_info(&self, room_url: &str) -> Result<LiveInfo, RecordError> {
        if self.fails {
            return Err(RecordError::ResolverFailure("timeout".to_string()));
        }
        Ok(LiveInfo {
            url: room_url.to_string(),
            anchor_name: "a".to_string(),
            anchor_avatar: String::new(),
            title: String::new(),
            status: self.status,
            viewer_count: String::new(),
            room_cover: String::new(),
            streams: self
                .streams
                .iter()
                .map(|url| Stream {
                    url: url.to_string(),
                    resolution: "default".to_string(),
                    protocol: StreamingProtocol::Flv,
                })
                .collect(),
            platform_kind: PlatformKind::Douyin,
        })
    }

    fn kind(&self) -> PlatformKind {
        PlatformKind::Douyin
    }
}

#[test]
fn capture_command_line_is_exact() {
    let expected = [
        "-y",
        "-v",
        "verbose",
        "-rw_timeout",
        "30000000",
        "-loglevel",
        "error",
        "-hide_banner",
        "-user_agent",
        "\"Mozilla/5.0 (X11; Linux x86_64) AppleWebKit/537.36 (KHTML, like Gecko) Chrome/124.0.0.0 Safari/537.36\"",
        "-protocol_whitelist",
        "rtmp,crypto,file,http,https,tcp,tls,udp,rtp,httpproxy",
        "-thread_queue_size",
        "1024",
        "-analyzeduration",
        "20000000",
        "-probesize",
        "10000000",
        "-fflags",
        "+discardcorrupt",
        "-i",
        "http://pull.example/stream.m3u8?expire=1715939773",
        "-bufsize",
        "8000k",
        "-sn",
        "-dn",
        "-reconnect_delay_max",
        "60",
        "-reconnect_streamed",
        "-reconnect_at_eof",
        "-max_muxing_queue_size",
        "1024",
        "-correct_ts_overflow",
        "1",
        "-c:v",
        "copy",
        "-c:a",
        "copy",
        "-map",
        "0",
        "-f",
        "mpegts",
        "test.ts",
    ];
    let args = build_ffmpeg_record_command(
        "http://pull.example/stream.m3u8?expire=1715939773",
        "test.ts",
        None,
    );
    assert_eq!(args, expected);
    let with_proxy = build_ffmpeg_record_command(
        "http://pull.example/stream.m3u8?expire=1715939773",
        "test.ts",
        Some("http://127.0.0.1:7890".to_string()),
    );
    assert_eq!(&with_proxy[..2], &["-http_proxy", "http://127.0.0.1:7890"]);
    assert_eq!(&with_proxy[2..], &expected);
}

#[test]
fn file_facts_are_filled_in() {
    let mut row = RecordingHistory::new_at("A", "p", 1);
    row.note_file(Some(4096));
    assert_eq!(row.file_size, 4096);
    assert!(!row.deleted);
    let mut gone = RecordingHistory::new_at("A", "p", 1);
    gone.note_file(None);
    assert_eq!(gone.file_size, 0);
    assert!(gone.deleted);
}

#[test]
fn configuration_is_chosen_from_what_is_stored() {
    let fallback = AppConfig::with_save_path("/v".to_string());
    let kept = choose_config(None, fallback.clone()).unwrap();
    assert_eq!(kept.save_path, "/v");
    let stored = AppConfig {
        ffmpeg_path: "f".to_string(),
        save_path: "/s".to_string(),
        live_info_check_interval: 1,
    };
    let got = choose_config(Some(stored.to_bytes()), fallback.clone()).unwrap();
    assert_eq!(got.save_path, "/s");
    assert_eq!(got.ffmpeg_path, "f");
    assert_eq!(got.live_info_check_interval, 1);
    assert!(matches!(
        choose_config(Some(vec![1, 2, 3]), fallback),
        Err(RecordError::StoreFailure(StoreFault::Malformed))
    ));
}

#[test]
fn a_plan_is_switched_in_its_bytes() {
    let plan = RecordingPlan::new_at("A", StreamingProtocol::Hls, "HD".to_string(), None, 7);
    let off = switch_plan(&Some(plan.to_bytes()), false).unwrap();
    let back = RecordingPlan::from_bytes(&off).unwrap();
    assert!(!back.enabled);
    assert_eq!(back.created_at, 7);
    assert_eq!(back.stream_resolution, "HD");
    assert!(matches!(
        switch_plan(&None, true),
        Err(RecordError::StoreFailure(StoreFault::PlanNotFound))
    ));
    assert!(matches!(
        switch_plan(&Some(vec![0]), true),
        Err(RecordError::StoreFailure(StoreFault::Malformed))
    ));
}

#[test]
fn an_answer_on_air_names_its_first_stream() {
    let live = Scripted { status: LiveStatus::Live, streams: vec!["s1", "s2"], fails: false }
        .get_live_info("A")
        .unwrap();
    match judge(live) {
        Resolved::OnAir(stream, info) => {
            assert_eq!(stream.url, "s1");
            assert_eq!(info.url, "A");
        }
        other => panic!("unexpected {:?}", other),
    }
    let off = Scripted { status: LiveStatus::NotLive, streams: vec!["s1"], fails: false }
        .get_live_info("A")
        .unwrap();
    assert!(matches!(judge(off), Resolved::OffAir(_)));
    let unknown = Scripted { status: LiveStatus::Unknown, streams: vec!["s1"], fails: false }
        .get_live_info("A")
        .unwrap();
    assert!(matches!(judge(unknown), Resolved::OffAir(_)));
}

#[test]
fn the_platform_is_not_asked_about_a_channel_being_recorded() {
    let on_air = Scripted { status: LiveStatus::Live, streams: vec!["s1", "s2"], fails: false };
    match start_record_default(&on_air, RecordStatus::NotRecording, "A") {
        Ok(Resolved::OnAir(stream, info)) => {
            // The platform was asked about this address, and its first
            // stream is the one to capture.
            assert_eq!(info.url, "A");
            assert_eq!(stream.url, "s1");
        }
        other => panic!("unexpected {:?}", other),
    }
    let failing = Scripted { status: LiveStatus::Live, streams: vec![], fails: true };
    match start_record_default(&failing, RecordStatus::NotRecording, "A") {
        Err(RecordError::ResolverFailure(m)) => assert_eq!(m, "timeout"),
        other => panic!("unexpected {:?}", other),
    }
    // A failing platform is not even asked where the channel is recorded.
    assert!(matches!(
        start_record_default(&failing, RecordStatus::Recording, "A"),
        Err(RecordError::AlreadyRecording)
    ));
    assert!(matches!(
        start_record_default(&on_air, RecordStatus::Recording, "A"),
        Err(RecordError::AlreadyRecording)
    ));
    assert_eq!(on_air.kind(), PlatformKind::Douyin);
}

#[test]
fn a_channel_off_air_is_not_started() {
    for status in [LiveStatus::NotLive, LiveStatus::Unknown] {
        let off = Scripted { status, streams: vec!["s1"], fails: false };
        match start_record_default(&off, RecordStatus::NotRecording, "B") {
            Ok(Resolved::OffAir(info)) => {
                assert_eq!(info.url, "B");
                assert_eq!(info.status, status);
            }
            other => panic!("unexpected {:?}", other),
        }
    }
    let no_stream = Scripted { status: LiveStatus::Live, streams: vec![], fails: false };
    assert!(matches!(
        start_record_default(&no_stream, RecordStatus::NotRecording, "B"),
        Ok(Resolved::OffAir(_))
    ));
}

#[test]
fn only_platforms_with_a_resolver_are_asked() {
    assert_eq!(get_platform_impl("https://live.douyin.com/1").unwrap(), PlatformKind::Douyin);
    assert_eq!(
        get_platform_impl("https://www.xiaohongshu.com/hina/livestream/1").unwrap(),
        PlatformKind::Xiaohongshu
    );
    assert_eq!(get_platform_impl("https://www.huya.com/1").unwrap(), PlatformKind::Huya);
    assert_eq!(get_platform_impl("HTTPS://WWW.TIKTOK.COM/@x/live").unwrap(), PlatformKind::Tiktok);
    match get_platform_impl("https://live.bilibili.com/27210217") {
        Err(e @ RecordError::ResolverFailure(_)) => {
            assert_eq!(e.message(), "Unknown platform: https://live.bilibili.com/27210217")
        }
        other => panic!("unexpected {:?}", other),
    }
    assert!(get_platform_impl("").is_err());
}

#[test]
fn the_poll_waits_at_least_a_second() {
    let config = |seconds: u64| AppConfig {
        ffmpeg_path: "ffmpeg".to_string(),
        save_path: "/v".to_string(),
        live_info_check_interval: seconds,
    };
    assert_eq!(poll_interval(&Ok(config(30))), 30);
    assert_eq!(poll_interval(&Ok(config(1))), 1);
    assert_eq!(poll_interval(&Ok(config(0))), 1);
    assert_eq!(poll_interval(&Ok(config(u64::MAX))), u64::MAX);
    assert_eq!(poll_interval(&Err(RecordError::StoreFailure(StoreFault::Malformed))), 60);
    assert_eq!(
        poll_interval(&Err(RecordError::StoreFailure(StoreFault::Backend("io".to_string())))),
        60
    );
}

#[test]
fn conversion_command_lines_are_exact() {
    let mp4 = build_ffmpeg_convert_command("/v/a_20240517_101613.ts", Conversion::Mp4).unwrap();
    assert_eq!(
        mp4,
        ["-i", "/v/a_20240517_101613.ts", "-c:v", "copy", "-c:a", "copy", "-f", "mp4",
            "/v/a_20240517_101613.mp4"]
    );
    let m4a = build_ffmpeg_convert_command("b.ts", Conversion::M4a).unwrap();
    assert_eq!(
        m4a,
        ["-i", "b.ts", "-n", "-vn", "-c:a", "aac", "-bsf:a", "aac_adtstoasc", "-ab", "320k",
            "b.m4a"]
    );
    // Every occurrence of the suffix is replaced.
    let twice = build_ffmpeg_convert_command("a.ts.ts", Conversion::Mp4).unwrap();
    assert_eq!(twice[8], "a.mp4.mp4");
    match build_ffmpeg_convert_command("a.mp4", Conversion::Mp4) {
        Err(e @ RecordError::PathFailure(_)) => assert_eq!(e.message(), "file is not end with .ts"),
        other => panic!("unexpected {:?}", other),
    }
    assert!(build_ffmpeg_convert_command("ts", Conversion::M4a).is_err());
    assert!(ends_with("a.ts", ".ts"));
    assert!(ends_with(".ts", ".ts"));
    assert!(!ends_with("ts", ".ts"));
    assert!(!ends_with("a.tsx", ".ts"));
    assert!(ends_with("abc", ""));
}
