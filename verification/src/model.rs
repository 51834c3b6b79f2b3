//! The data of the recorder: channels, streams, plans, history rows and
//! configuration, each with the mathematical view that contracts speak of.

use crate::clock::now_millis;
use vstd::prelude::*;
use vstd::string::*;

verus! {

/// The transport of a stream.
#[derive(Clone, Copy, Debug, PartialEq, Eq, Structural)]
pub enum StreamingProtocol {
    Flv,
    Hls,
}

/// Whether a channel is on air.
#[derive(Clone, Copy, Debug, PartialEq, Eq, Structural)]
pub enum LiveStatus {
    Live,
    NotLive,
    Unknown,
}

/// Whether a channel is being captured.
#[derive(Clone, Copy, Debug, PartialEq, Eq, Structural)]
pub enum RecordStatus {
    Recording,
    NotRecording,
}

/// The platform that hosts a channel.
#[derive(Clone, Copy, Debug, PartialEq, Eq, Structural)]
pub enum PlatformKind {
    Douyin,
    Tiktok,
    Xiaohongshu,
    Bilibili,
    Huya,
    Kuaishou,
    Douyu,
    Twitch,
    Youtube,
    Unknown,
}

/// When a plan wants its channel captured. Times are in milliseconds since the
/// epoch, durations in seconds.
#[derive(Clone, Copy, Debug, PartialEq, Eq, Structural)]
pub enum RecordingStrategy {
    /// From a start time to an end time.
    Timed(i64, i64),
    /// From a start time, for a duration.
    TimedWithDuration(i64, i64),
    /// From a start time until the channel goes off air.
    TimedUntilAnchorEnd(i64),
    /// Whenever the channel is on air.
    AnchorLive,
    /// Whenever the channel goes on air, for a duration.
    AnchorLiveWithDuration(i64),
}

/// What a message asks the recorder to do.
#[derive(Clone, Copy, Debug, PartialEq, Eq, Structural)]
pub enum Action {
    StartRecord,
    StopRecord,
    PauseRecord,
    ResumeRecord,
    GetRecordStatus,
}

/// A request that names a channel and an action on it.
#[derive(Clone, Debug)]
pub struct Message {
    pub url: String,
    pub action: Action,
}

/// One way to pull a channel's stream.
#[derive(Clone, Debug)]
pub struct Stream {
    pub url: String,
    pub resolution: String,
    pub protocol: StreamingProtocol,
}

/// The contents of a [`Stream`].
pub struct StreamView {
    pub url: Seq<char>,
    pub resolution: Seq<char>,
    pub protocol: StreamingProtocol,
}

impl View for Stream {
    type V = StreamView;

    open spec fn view(&self) -> StreamView {
        StreamView { url: self.url@, resolution: self.resolution@, protocol: self.protocol }
    }
}

/// The views of a list of streams.
pub open spec fn streams_view(ss: Seq<Stream>) -> Seq<StreamView> {
    Seq::new(ss.len(), |i: int| ss[i]@)
}

/// What a platform last reported of a channel.
#[derive(Clone, Debug)]
pub struct LiveInfo {
    pub url: String,
    pub anchor_name: String,
    pub anchor_avatar: String,
    pub title: String,
    pub status: LiveStatus,
    pub viewer_count: String,
    /// Cover image of the room, empty where there is none.
    pub room_cover: String,
    pub streams: Vec<Stream>,
    pub platform_kind: PlatformKind,
}

/// The contents of a [`LiveInfo`].
pub struct LiveInfoView {
    pub url: Seq<char>,
    pub anchor_name: Seq<char>,
    pub anchor_avatar: Seq<char>,
    pub title: Seq<char>,
    pub status: LiveStatus,
    pub viewer_count: Seq<char>,
    pub room_cover: Seq<char>,
    pub streams: Seq<StreamView>,
    pub platform_kind: PlatformKind,
}

impl View for LiveInfo {
    type V = LiveInfoView;

    open spec fn view(&self) -> LiveInfoView {
        LiveInfoView {
            url: self.url@,
            anchor_name: self.anchor_name@,
            anchor_avatar: self.anchor_avatar@,
            title: self.title@,
            status: self.status,
            viewer_count: self.viewer_count@,
            room_cover: self.room_cover@,
            streams: streams_view(self.streams@),
            platform_kind: self.platform_kind,
        }
    }
}

/// The view of an optional live descriptor.
pub open spec fn opt_live_view(o: Option<LiveInfo>) -> Option<LiveInfoView> {
    match o {
        Some(l) => Some(l@),
        None => None,
    }
}

/// One capture attempt.
#[derive(Clone, Debug)]
pub struct RecordingHistory {
    pub url: String,
    pub status: RecordStatus,
    /// Milliseconds since the epoch.
    pub start_time: i64,
    /// Milliseconds since the epoch; 0 while the capture runs.
    pub end_time: i64,
    /// Where the capture is written.
    pub path: String,
    /// Size of the file; not stored, filled in when rows are listed.
    pub file_size: u64,
    /// Whether the file is gone; not stored, filled in when rows are listed.
    pub deleted: bool,
    pub live_info: Option<LiveInfo>,
}

/// The contents of a [`RecordingHistory`].
pub struct RecordingHistoryView {
    pub url: Seq<char>,
    pub status: RecordStatus,
    pub start_time: i64,
    pub end_time: i64,
    pub path: Seq<char>,
    pub file_size: u64,
    pub deleted: bool,
    pub live_info: Option<LiveInfoView>,
}

impl View for RecordingHistory {
    type V = RecordingHistoryView;

    open spec fn view(&self) -> RecordingHistoryView {
        RecordingHistoryView {
            url: self.url@,
            status: self.status,
            start_time: self.start_time,
            end_time: self.end_time,
            path: self.path@,
            file_size: self.file_size,
            deleted: self.deleted,
            live_info: opt_live_view(self.live_info),
        }
    }
}

/// Options of a capture.
#[derive(Clone, Debug)]
pub struct RecordingOption {
    /// Proxy to pull the stream through.
    pub use_proxy: Option<String>,
    pub auto_convert_to_mp4: bool,
    pub delete_original_file: bool,
}

/// The contents of a [`RecordingOption`].
pub struct RecordingOptionView {
    pub use_proxy: Option<Seq<char>>,
    pub auto_convert_to_mp4: bool,
    pub delete_original_file: bool,
}

impl View for RecordingOption {
    type V = RecordingOptionView;

    open spec fn view(&self) -> RecordingOptionView {
        RecordingOptionView {
            use_proxy: match self.use_proxy {
                Some(p) => Some(p@),
                None => None,
            },
            auto_convert_to_mp4: self.auto_convert_to_mp4,
            delete_original_file: self.delete_original_file,
        }
    }
}

/// The standing intent to capture a channel whenever it is on air.
#[derive(Clone, Debug)]
pub struct RecordingPlan {
    pub url: String,
    pub strategy: RecordingStrategy,
    pub stream_protocol: StreamingProtocol,
    pub stream_resolution: String,
    pub enabled: bool,
    /// Milliseconds since the epoch.
    pub created_at: i64,
    /// Milliseconds since the epoch; 0 if never updated.
    pub updated_at: i64,
    pub live_info: Option<LiveInfo>,
    pub option: RecordingOption,
}

/// The contents of a [`RecordingPlan`].
pub struct RecordingPlanView {
    pub url: Seq<char>,
    pub strategy: RecordingStrategy,
    pub stream_protocol: StreamingProtocol,
    pub stream_resolution: Seq<char>,
    pub enabled: bool,
    pub created_at: i64,
    pub updated_at: i64,
    pub live_info: Option<LiveInfoView>,
    pub option: RecordingOptionView,
}

impl View for RecordingPlan {
    type V = RecordingPlanView;

    open spec fn view(&self) -> RecordingPlanView {
        RecordingPlanView {
            url: self.url@,
            strategy: self.strategy,
            stream_protocol: self.stream_protocol,
            stream_resolution: self.stream_resolution@,
            enabled: self.enabled,
            created_at: self.created_at,
            updated_at: self.updated_at,
            live_info: opt_live_view(self.live_info),
            option: self.option@,
        }
    }
}

/// Process-wide settings.
#[derive(Clone, Debug)]
pub struct AppConfig {
    /// Path of the capture tool.
    pub ffmpeg_path: String,
    /// Directory under which captures are saved.
    pub save_path: String,
    /// Seconds between two polls of the plans.
    pub live_info_check_interval: u64,
}

/// The contents of an [`AppConfig`].
pub struct AppConfigView {
    pub ffmpeg_path: Seq<char>,
    pub save_path: Seq<char>,
    pub live_info_check_interval: u64,
}

impl View for AppConfig {
    type V = AppConfigView;

    open spec fn view(&self) -> AppConfigView {
        AppConfigView {
            ffmpeg_path: self.ffmpeg_path@,
            save_path: self.save_path@,
            live_info_check_interval: self.live_info_check_interval,
        }
    }
}

/// A lookup of a channel that the user made.
#[derive(Clone, Debug)]
pub struct QueryHistory {
    pub url: String,
    pub anchor_name: String,
    pub platform_kind: String,
    pub created_at: i64,
}

/// The contents of a [`QueryHistory`].
pub struct QueryHistoryView {
    pub url: Seq<char>,
    pub anchor_name: Seq<char>,
    pub platform_kind: Seq<char>,
    pub created_at: i64,
}

impl View for QueryHistory {
    type V = QueryHistoryView;

    open spec fn view(&self) -> QueryHistoryView {
        QueryHistoryView {
            url: self.url@,
            anchor_name: self.anchor_name@,
            platform_kind: self.platform_kind@,
            created_at: self.created_at,
        }
    }
}

/// The proxy that the system is configured with.
#[derive(Clone, Debug)]
pub struct ProxyConfig {
    pub enabled: bool,
    pub address: String,
}

/// Where a capture is saved.
#[derive(Clone, Debug)]
pub struct StorageSetting {
    pub path: String,
    pub filename: String,
}

/// A request for the place where captures of a channel are saved.
#[derive(Clone, Debug)]
pub struct StorageSettingRequest {
    pub platform_kind: PlatformKind,
    pub anchor_name: String,
}

/// A request to start capturing a channel.
#[derive(Clone, Debug)]
pub struct StartRecordRequest {
    pub url: String,
    pub auto_record: bool,
    pub stream: Stream,
    pub platform_kind: PlatformKind,
    pub anchor_name: String,
}

/// Stream addresses of a channel by transport, each a list of resolution and
/// address.
#[derive(Clone, Debug)]
pub struct StreamUrlInfo {
    pub default_resolution: String,
    pub flv: Vec<(String, String)>,
    pub hls: Vec<(String, String)>,
}

/// How a channel presents itself.
#[derive(Clone, Debug)]
pub struct LiveRoomInfo {
    pub url: String,
    pub anchor_name: String,
    pub anchor_avatar: String,
    pub title: String,
    pub platform_kind: PlatformKind,
    pub room_cover: String,
}

impl Default for RecordingOption {
    fn default() -> (r: RecordingOption)
        ensures
            r@ == (RecordingOptionView {
                use_proxy: None,
                auto_convert_to_mp4: false,
                delete_original_file: false,
            }),
    {
        RecordingOption { use_proxy: None, auto_convert_to_mp4: false, delete_original_file: false }
    }
}

/// The row of a capture of `url` into `path` that has just begun at `now`.
pub open spec fn started_history(url: Seq<char>, path: Seq<char>, now: i64) -> RecordingHistoryView {
    RecordingHistoryView {
        url,
        status: RecordStatus::Recording,
        start_time: now,
        end_time: 0,
        path,
        file_size: 0,
        deleted: false,
        live_info: None,
    }
}

/// The plan made at `now` to capture `url` whenever it is on air.
pub open spec fn fresh_plan(
    url: Seq<char>,
    stream_protocol: StreamingProtocol,
    stream_resolution: Seq<char>,
    option: RecordingOptionView,
    now: i64,
) -> RecordingPlanView {
    RecordingPlanView {
        url,
        strategy: RecordingStrategy::AnchorLive,
        stream_protocol,
        stream_resolution,
        enabled: true,
        created_at: now,
        updated_at: 0,
        live_info: None,
        option,
    }
}

/// The options, or the default ones where there are none.
pub open spec fn option_or_default(option: Option<RecordingOption>) -> RecordingOptionView {
    match option {
        Some(o) => o@,
        None => RecordingOptionView {
            use_proxy: None,
            auto_convert_to_mp4: false,
            delete_original_file: false,
        },
    }
}

/// The row with the facts about its file filled in: the size of the file
/// where there is one, and that it is gone where there is none.
pub open spec fn with_file(h: RecordingHistoryView, size: Option<u64>) -> RecordingHistoryView {
    match size {
        Some(n) => RecordingHistoryView { file_size: n, ..h },
        None => RecordingHistoryView { deleted: true, ..h },
    }
}

impl RecordingHistory {
    /// Fills in the facts about the file of the capture: `size` is the size
    /// of the file, or nothing where the file does not exist.
    pub fn note_file(&mut self, size: Option<u64>)
        ensures
            final(self)@ == with_file(old(self)@, size),
    {
        match size {
            Some(n) => {
                self.file_size = n;
            },
            None => {
                self.deleted = true;
            },
        }
    }

    /// The row of a capture of `url` into `path` that begins at `now`.
    pub fn new_at(url: &str, path: &str, now: i64) -> (h: RecordingHistory)
        ensures
            h@ == started_history(url@, path@, now),
    {
        RecordingHistory {
            url: String::from_str(url),
            path: String::from_str(path),
            status: RecordStatus::Recording,
            start_time: now,
            end_time: 0,
            file_size: 0,
            deleted: false,
            live_info: None,
        }
    }

    /// The row of a capture of `url` into `path` that begins now.
    pub fn new(url: &str, path: &str) -> (h: RecordingHistory)
        ensures
            h@ == started_history(url@, path@, h.start_time),
            h.start_time >= 0,
    {
        Self::new_at(url, path, now_millis())
    }
}

impl RecordingPlan {
    /// The plan made at `now` to capture `url` whenever it is on air.
    pub fn new_at(
        url: &str,
        stream_protocol: StreamingProtocol,
        stream_resolution: String,
        option: Option<RecordingOption>,
        now: i64,
    ) -> (p: RecordingPlan)
        ensures
            p@ == fresh_plan(
                url@,
                stream_protocol,
                stream_resolution@,
                option_or_default(option),
                now,
            ),
    {
        let option = match option {
            Some(o) => o,
            None => RecordingOption::default(),
        };
        RecordingPlan {
            url: String::from_str(url),
            strategy: RecordingStrategy::AnchorLive,
            enabled: true,
            created_at: now,
            updated_at: 0,
            live_info: None,
            stream_protocol,
            stream_resolution,
            option,
        }
    }

    /// The plan made now to capture `url` whenever it is on air.
    pub fn new(
        url: &str,
        stream_protocol: StreamingProtocol,
        stream_resolution: String,
        option: Option<RecordingOption>,
    ) -> (p: RecordingPlan)
        ensures
            p@ == fresh_plan(
                url@,
                stream_protocol,
                stream_resolution@,
                option_or_default(option),
                p.created_at,
            ),
            p.created_at >= 0,
    {
        Self::new_at(url, stream_protocol, stream_resolution, option, now_millis())
    }

    /// The plan made now to capture `url` over FLV at whatever resolution
    /// there is, with default options.
    pub fn new_with_url(url: &str) -> (p: RecordingPlan)
        ensures
            p@ == fresh_plan(
                url@,
                StreamingProtocol::Flv,
                Seq::empty(),
                option_or_default(None),
                p.created_at,
            ),
            p.created_at >= 0,
    {
        Self::new(url, StreamingProtocol::Flv, String::new(), None)
    }
}

impl Stream {
    /// A copy of the stream.
    pub fn duplicate(&self) -> (r: Stream)
        ensures
            r@ == self@,
    {
        Stream {
            url: self.url.clone(),
            resolution: self.resolution.clone(),
            protocol: self.protocol,
        }
    }
}

impl LiveInfo {
    /// A copy of the descriptor.
    pub fn duplicate(&self) -> (r: LiveInfo)
        ensures
            r@ == self@,
    {
        let mut streams: Vec<Stream> = Vec::new();
        let mut i: usize = 0;
        while i < self.streams.len()
            invariant
                i <= self.streams@.len(),
                streams@.len() == i,
                forall|j: int| 0 <= j < i ==> streams@[j]@ == self.streams@[j]@,
            decreases self.streams@.len() - i,
        {
            streams.push(self.streams[i].duplicate());
            i += 1;
        }
        assert(streams_view(streams@) =~= streams_view(self.streams@));
        LiveInfo {
            url: self.url.clone(),
            anchor_name: self.anchor_name.clone(),
            anchor_avatar: self.anchor_avatar.clone(),
            title: self.title.clone(),
            status: self.status,
            viewer_count: self.viewer_count.clone(),
            room_cover: self.room_cover.clone(),
            streams,
            platform_kind: self.platform_kind,
        }
    }
}

impl RecordingOption {
    /// A copy of the options.
    pub fn duplicate(&self) -> (r: RecordingOption)
        ensures
            r@ == self@,
    {
        RecordingOption {
            use_proxy: match &self.use_proxy {
                Some(p) => Some(p.clone()),
                None => None,
            },
            auto_convert_to_mp4: self.auto_convert_to_mp4,
            delete_original_file: self.delete_original_file,
        }
    }
}

} // verus!
