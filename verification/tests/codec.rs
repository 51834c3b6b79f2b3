use liveship::error::{RecordError, StoreFault};
use liveship::keys::{make_history_key, Family};
use liveship::model::{
    AppConfig, LiveInfo, LiveStatus, PlatformKind, QueryHistory, RecordStatus, RecordingHistory,
    RecordingOption, RecordingPlan, RecordingStrategy, Stream, StreamingProtocol,
};
use liveship::platform::{same_text, starts_with};
use liveship::text::decimal;
use liveship::utils::{filename_at, generate_filename, sanitize};
use liveship::wire::{decode_fields, encode_fields, get_i64, get_u64, put_i64, put_u64, Field};

fn sample_live(url: &str) -> LiveInfo {
    LiveInfo {
        url: url.to_string(),
        anchor_name: "主播 One!".to_string(),
        anchor_avatar: "https://img.example/a.png".to_string(),
        title: "evening show".to_string(),
        status: LiveStatus::Live,
        viewer_count: "1.2k".to_string(),
        room_cover: String::new(),
        streams: vec![
            Stream {
                url: "https://pull.example/s1.flv".to_string(),
                resolution: "FULL_HD1".to_string(),
                protocol: StreamingProtocol::Flv,
            },
            Stream {
                url: "https://pull.example/s1.m3u8".to_string(),
                resolution: "HD1".to_string(),
                protocol: StreamingProtocol::Hls,
            },
        ],
        platform_kind: PlatformKind::Douyin,
    }
}

fn same_stream(a: &Stream, b: &Stream) -> bool {
    a.url == b.url && a.resolution == b.resolution && a.protocol == b.protocol
}

fn same_live(a: &LiveInfo, b: &LiveInfo) -> bool {
    a.url == b.url
        && a.anchor_name == b.anchor_name
        && a.anchor_avatar == b.anchor_avatar
        && a.title == b.title
        && a.status == b.status
        && a.viewer_count == b.viewer_count
        && a.room_cover == b.room_cover
        && a.platform_kind == b.platform_kind
        && a.streams.len() == b.streams.len()
        && a.streams.iter().zip(b.streams.iter()).all(|(x, y)| same_stream(x, y))
}

#[test]
fn decimal_writes_signed_numbers() {
    assert_eq!(decimal(0), "0");
    assert_eq!(decimal(7), "7");
    assert_eq!(decimal(10), "10");
    assert_eq!(decimal(1715939773), "1715939773");
    assert_eq!(decimal(-42), "-42");
    assert_eq!(decimal(i64::MIN), "-9223372036854775808");
    assert_eq!(decimal(i64::MAX), "9223372036854775807");
}

#[test]
fn big_endian_numbers_match_std() {
    let mut out = Vec::new();
    put_u64(&mut out, 0x0102030405060708);
    assert_eq!(out, vec![1, 2, 3, 4, 5, 6, 7, 8]);
    assert_eq!(get_u64(&out, 0), 0x0102030405060708);
    for x in [0i64, 1, -1, 1715939773000, i64::MIN, i64::MAX] {
        let mut out = vec![9u8];
        put_i64(&mut out, x);
        assert_eq!(&out[1..], &x.to_be_bytes());
        assert_eq!(get_i64(&out, 1), x);
    }
}

#[test]
fn fields_are_written_kind_first() {
    let fields = vec![
        Field::Int(-2),
        Field::Count(3),
        Field::Flag(true),
        Field::Tag(7),
        Field::Text("né".to_string()),
    ];
    let bytes = encode_fields(&fields);
    let mut expected = vec![1u8];
    expected.extend_from_slice(&(-2i64).to_be_bytes());
    expected.push(2);
    expected.extend_from_slice(&3u64.to_be_bytes());
    expected.extend_from_slice(&[3, 1, 4, 7, 5]);
    expected.extend_from_slice(&3u64.to_be_bytes());
    expected.extend_from_slice("né".as_bytes());
    assert_eq!(bytes, expected);
    let back = decode_fields(&bytes).unwrap();
    assert_eq!(back.len(), 5);
    assert!(matches!(back[0], Field::Int(-2)));
    assert!(matches!(back[1], Field::Count(3)));
    assert!(matches!(back[2], Field::Flag(true)));
    assert!(matches!(back[3], Field::Tag(7)));
    assert!(matches!(&back[4], Field::Text(s) if s == "né"));
}

#[test]
fn no_fields_are_no_bytes() {
    assert!(encode_fields(&Vec::new()).is_empty());
    assert_eq!(decode_fields(&[]).unwrap().len(), 0);
}

#[test]
fn malformed_bytes_are_not_fields() {
    // An unknown kind.
    assert!(decode_fields(&[9, 0]).is_none());
    // A number cut short.
    assert!(decode_fields(&[1, 0, 0, 0]).is_none());
    // A flag that is neither 0 nor 1.
    assert!(decode_fields(&[3, 2]).is_none());
    // A text longer than what is left.
    let mut long = vec![5u8];
    long.extend_from_slice(&4u64.to_be_bytes());
    long.extend_from_slice(b"abc");
    assert!(decode_fields(&long).is_none());
    // A text whose length does not fit in memory.
    let mut huge = vec![5u8];
    huge.extend_from_slice(&u64::MAX.to_be_bytes());
    assert!(decode_fields(&huge).is_none());
    // A text that is not UTF-8.
    let mut bad = vec![5u8];
    bad.extend_from_slice(&2u64.to_be_bytes());
    bad.extend_from_slice(&[0xff, 0xfe]);
    assert!(decode_fields(&bad).is_none());
    // A tag with nothing behind it.
    assert!(decode_fields(&[4]).is_none());
}

#[test]
fn history_row_round_trip() {
    let row = RecordingHistory {
        url: "https://live.douyin.com/1".to_string(),
        status: RecordStatus::Recording,
        start_time: 1715939773000,
        end_time: 0,
        path: "/videos/Douyin/One/One_20240517_101613.ts".to_string(),
        file_size: 77,
        deleted: true,
        live_info: Some(sample_live("https://live.douyin.com/1")),
    };
    let back = RecordingHistory::from_bytes(&row.to_bytes()).unwrap();
    assert_eq!(back.url, row.url);
    assert_eq!(back.status, RecordStatus::Recording);
    assert_eq!(back.start_time, 1715939773000);
    assert_eq!(back.end_time, 0);
    assert_eq!(back.path, row.path);
    // The facts about the file are not stored.
    assert_eq!(back.file_size, 0);
    assert!(!back.deleted);
    assert!(same_live(back.live_info.as_ref().unwrap(), row.live_info.as_ref().unwrap()));
}

#[test]
fn history_row_without_descriptor_round_trip() {
    let row = RecordingHistory::new_at("u", "p", -5);
    let back = RecordingHistory::from_bytes(&row.to_bytes()).unwrap();
    assert_eq!(back.url, "u");
    assert_eq!(back.path, "p");
    assert_eq!(back.start_time, -5);
    assert_eq!(back.end_time, 0);
    assert_eq!(back.status, RecordStatus::Recording);
    assert!(back.live_info.is_none());
}

#[test]
fn history_row_rejects_other_values() {
    let config = AppConfig::with_save_path("/videos".to_string());
    assert!(RecordingHistory::from_bytes(&config.to_bytes()).is_none());
    assert!(RecordingHistory::from_bytes(&[]).is_none());
    // A row with bytes behind it is no row.
    let mut bytes = RecordingHistory::new_at("u", "p", 1).to_bytes();
    bytes.extend_from_slice(&[3, 0]);
    assert!(RecordingHistory::from_bytes(&bytes).is_none());
}

#[test]
fn plan_round_trip() {
    let strategies = [
        RecordingStrategy::Timed(1, 2),
        RecordingStrategy::TimedWithDuration(3, 4),
        RecordingStrategy::TimedUntilAnchorEnd(5),
        RecordingStrategy::AnchorLive,
        RecordingStrategy::AnchorLiveWithDuration(6),
    ];
    for strategy in strategies {
        let plan = RecordingPlan {
            url: "https://www.huya.com/9".to_string(),
            strategy,
            stream_protocol: StreamingProtocol::Hls,
            stream_resolution: "HD".to_string(),
            enabled: false,
            created_at: 11,
            updated_at: 12,
            live_info: Some(sample_live("https://www.huya.com/9")),
            option: RecordingOption {
                use_proxy: Some("http://127.0.0.1:7890".to_string()),
                auto_convert_to_mp4: true,
                delete_original_file: false,
            },
        };
        let back = RecordingPlan::from_bytes(&plan.to_bytes()).unwrap();
        assert_eq!(back.url, plan.url);
        assert_eq!(back.strategy, strategy);
        assert_eq!(back.stream_protocol, StreamingProtocol::Hls);
        assert_eq!(back.stream_resolution, "HD");
        assert!(!back.enabled);
        assert_eq!(back.created_at, 11);
        assert_eq!(back.updated_at, 12);
        assert_eq!(back.option.use_proxy.as_deref(), Some("http://127.0.0.1:7890"));
        assert!(back.option.auto_convert_to_mp4);
        assert!(!back.option.delete_original_file);
        assert!(same_live(back.live_info.as_ref().unwrap(), plan.live_info.as_ref().unwrap()));
    }
}

#[test]
fn fresh_plan_has_the_documented_defaults() {
    let plan = RecordingPlan::new_at("u", StreamingProtocol::Flv, "HD".to_string(), None, 99);
    assert_eq!(plan.url, "u");
    assert_eq!(plan.strategy, RecordingStrategy::AnchorLive);
    assert!(plan.enabled);
    assert_eq!(plan.created_at, 99);
    assert_eq!(plan.updated_at, 0);
    assert!(plan.live_info.is_none());
    assert!(plan.option.use_proxy.is_none());
    assert!(!plan.option.auto_convert_to_mp4);
    assert!(!plan.option.delete_original_file);
    let back = RecordingPlan::from_bytes(&plan.to_bytes()).unwrap();
    assert!(back.option.use_proxy.is_none());

    let by_url = RecordingPlan::new_with_url("https://live.douyin.com/7");
    assert_eq!(by_url.url, "https://live.douyin.com/7");
    assert_eq!(by_url.stream_protocol, StreamingProtocol::Flv);
    assert_eq!(by_url.stream_resolution, "");
    assert!(by_url.enabled);
    assert!(by_url.created_at > 0);
}

#[test]
fn config_and_lookup_round_trip() {
    let config = AppConfig {
        ffmpeg_path: "/usr/bin/ffmpeg".to_string(),
        save_path: "/videos/liveship".to_string(),
        live_info_check_interval: 30,
    };
    let back = AppConfig::from_bytes(&config.to_bytes()).unwrap();
    assert_eq!(back.ffmpeg_path, "/usr/bin/ffmpeg");
    assert_eq!(back.save_path, "/videos/liveship");
    assert_eq!(back.live_info_check_interval, 30);

    let fresh = AppConfig::with_save_path("/v".to_string());
    assert_eq!(fresh.ffmpeg_path, "ffmpeg");
    assert_eq!(fresh.save_path, "/v");
    assert_eq!(fresh.live_info_check_interval, 60);

    let query = QueryHistory {
        url: "u".to_string(),
        anchor_name: "a".to_string(),
        platform_kind: "Douyin".to_string(),
        created_at: 5,
    };
    let back = QueryHistory::from_bytes(&query.to_bytes()).unwrap();
    assert_eq!(back.url, "u");
    assert_eq!(back.anchor_name, "a");
    assert_eq!(back.platform_kind, "Douyin");
    assert_eq!(back.created_at, 5);
    assert!(QueryHistory::from_bytes(&config.to_bytes()).is_none());
    assert!(AppConfig::from_bytes(&query.to_bytes()).is_none());
}

#[test]
fn live_descriptor_round_trip() {
    let live = sample_live("https://www.tiktok.com/@x/live");
    let back = LiveInfo::from_bytes(&live.to_bytes()).unwrap();
    assert!(same_live(&back, &live));
    let copy = live.duplicate();
    assert!(same_live(&copy, &live));
    let mut none = sample_live("u");
    none.streams.clear();
    let back = LiveInfo::from_bytes(&none.to_bytes()).unwrap();
    assert!(back.streams.is_empty());
}

#[test]
fn variant_numbers_are_stable() {
    assert_eq!(StreamingProtocol::Flv.tag(), 0);
    assert_eq!(StreamingProtocol::Hls.tag(), 1);
    assert_eq!(StreamingProtocol::from_tag(2), None);
    assert_eq!(LiveStatus::from_tag(LiveStatus::Unknown.tag()), Some(LiveStatus::Unknown));
    assert_eq!(LiveStatus::from_tag(3), None);
    assert_eq!(RecordStatus::Recording.tag(), 0);
    assert_eq!(RecordStatus::NotRecording.tag(), 1);
    assert_eq!(RecordStatus::from_tag(2), None);
    assert_eq!(PlatformKind::Unknown.tag(), 9);
    assert_eq!(PlatformKind::from_tag(4), Some(PlatformKind::Huya));
    assert_eq!(PlatformKind::from_tag(10), None);
    assert_eq!(RecordingStrategy::AnchorLive.parts(), (3, 0, 0));
    assert_eq!(RecordingStrategy::from_parts(3, 1, 0), None);
    assert_eq!(RecordingStrategy::from_parts(2, 1, 1), None);
    assert_eq!(
        RecordingStrategy::from_parts(1, 8, 9),
        Some(RecordingStrategy::TimedWithDuration(8, 9))
    );
    assert_eq!(RecordingStrategy::from_parts(5, 0, 0), None);
}

#[test]
fn keys_are_prefix_and_name() {
    assert_eq!(Family::Plan.key("https://a/b"), "plan:https://a/b");
    assert_eq!(Family::Recording.key("A"), "recording:A");
    assert_eq!(Family::Live.key("A"), "live:A");
    assert_eq!(make_history_key("A", 1715939773000), "history:A:1715939773000");
    assert_eq!(make_history_key("A:1", -3), "history:A:1:-3");
    for family in [
        Family::Plan,
        Family::History,
        Family::Recording,
        Family::Live,
        Family::QueryHistory,
    ] {
        let prefix = family.prefix();
        let end = family.end();
        assert_eq!(prefix.len(), end.len());
        assert_eq!(&prefix[..prefix.len() - 1], &end[..end.len() - 1]);
        assert!(prefix.ends_with(':'));
        assert!(end.ends_with(';'));
        // The scan range holds the keys of the family and no others.
        let inside = family.key("zzz");
        assert!(prefix <= inside.as_str() && inside.as_str() < end);
        assert!(!(prefix <= "polling_time" && "polling_time" < end));
        assert!(!(prefix <= "config" && "config" < end));
    }
}

#[test]
fn file_names_keep_letters_and_digits() {
    assert_eq!(sanitize("主播 One!_2"), "主播One2");
    assert_eq!(sanitize(""), "");
    assert_eq!(sanitize("/\\.. -"), "");
    assert_eq!(filename_at("a b/c", "20240517_101613"), "abc_20240517_101613.ts");
    let now = generate_filename("x y");
    assert!(now.starts_with("xy_"));
    assert!(now.ends_with(".ts"));
    assert_eq!(now.len(), "xy_20240517_101613.ts".len());
}

#[test]
fn platforms_are_told_from_addresses() {
    assert_eq!(PlatformKind::from_url("https://live.douyin.com/123"), PlatformKind::Douyin);
    assert_eq!(PlatformKind::from_url("https://v.douyin.com/abc"), PlatformKind::Douyin);
    assert_eq!(PlatformKind::from_url("DOUYIN"), PlatformKind::Douyin);
    assert_eq!(PlatformKind::from_url("HTTPS://WWW.TIKTOK.COM/@x/live"), PlatformKind::Tiktok);
    assert_eq!(PlatformKind::from_url("tiktok"), PlatformKind::Tiktok);
    assert_eq!(
        PlatformKind::from_url("https://www.xiaohongshu.com/hina/livestream/1"),
        PlatformKind::Xiaohongshu
    );
    assert_eq!(PlatformKind::from_url("https://www.huya.com/749536"), PlatformKind::Huya);
    assert_eq!(PlatformKind::from_url("Huya"), PlatformKind::Huya);
    assert_eq!(PlatformKind::from_url("https://live.bilibili.com/1"), PlatformKind::Unknown);
    assert_eq!(PlatformKind::from_url("douyin.com"), PlatformKind::Unknown);
    assert_eq!(PlatformKind::from_url(""), PlatformKind::Unknown);
    assert_eq!(PlatformKind::Douyin.name(), "Douyin");
    assert_eq!(PlatformKind::Xiaohongshu.name(), "Xiaohongshu");
    assert_eq!(PlatformKind::Unknown.name(), "Unknown");
    assert!(starts_with("plan:x", "plan:"));
    assert!(starts_with("plan:", "plan:"));
    assert!(!starts_with("plan", "plan:"));
    assert!(!starts_with("plaN:x", "plan:"));
    assert!(starts_with("anything", ""));
    assert!(same_text("é", "é"));
    assert!(!same_text("ab", "abc"));
    assert!(!same_text("abd", "abc"));
}

#[test]
fn errors_have_their_messages() {
    assert_eq!(RecordError::AlreadyRecording.message(), "Already recording");
    assert_eq!(RecordError::NotRecording.message(), "url is not recording");
    assert_eq!(RecordError::ResolverFailure("timeout".to_string()).message(), "timeout");
    assert_eq!(RecordError::LaunchFailure("status: 1".to_string()).message(), "status: 1");
    assert_eq!(RecordError::PathFailure("no dir".to_string()).message(), "no dir");
    assert_eq!(
        RecordError::StoreFailure(StoreFault::Backend("io".to_string())).message(),
        "io"
    );
    assert_eq!(
        RecordError::StoreFailure(StoreFault::Malformed).message(),
        "stored value is malformed"
    );
    assert_eq!(
        RecordError::StoreFailure(StoreFault::HistoryNotFound).message(),
        "history not found"
    );
    assert_eq!(RecordError::StoreFailure(StoreFault::PlanNotFound).message(), "plan not found");
}
