//! The platforms as the recorder sees them: something that can be asked what
//! a channel is doing right now.

use crate::error::RecordError;
use crate::manager::pick_stream;
use crate::model::{LiveInfo, LiveInfoView, LiveStatus, PlatformKind, RecordStatus, Stream};
use crate::platform::{lowercase, platform_of};
use vstd::prelude::*;
use vstd::string::*;

verus! {

/// A platform. Every platform that channels are recorded from implements
/// this; how it finds out about a channel is its own business, and nothing is
/// assumed of what it answers.
pub trait Recorder {
    /// What the channel at `room_url` is doing right now.
    fn get_live_info(&self, room_url: &str) -> Result<LiveInfo, RecordError>;

    /// Which platform this is.
    fn kind(&self) -> PlatformKind;
}

/// What asking the platform about a channel led to.
#[derive(Debug)]
pub enum Resolved {
    /// The channel is on air; capture this stream.
    OnAir(Stream, LiveInfo),
    /// The channel is not on air, or offers no stream: nothing is to be
    /// started. The descriptor is handed on so that it can be cached.
    OffAir(LiveInfo),
}

/// `verdict` is what the answer `live` of a platform means for a capture: on
/// air, with the first stream of the answer, exactly where the answer says
/// that the channel is live and names a stream; off air otherwise. Either way
/// the verdict carries the answer.
pub open spec fn is_verdict_on(verdict: Resolved, live: LiveInfoView) -> bool {
    match verdict {
        Resolved::OnAir(stream, info) => info@ == live && live.status == LiveStatus::Live
            && live.streams.len() > 0 && stream@ == live.streams[0],
        Resolved::OffAir(info) => info@ == live && (live.status != LiveStatus::Live
            || live.streams.len() == 0),
    }
}

/// What an answer of the platform means for a capture.
pub fn judge(live: LiveInfo) -> (r: Resolved)
    ensures
        is_verdict_on(r, live@),
{
    match pick_stream(&live) {
        Some(stream) => Resolved::OnAir(stream, live),
        None => Resolved::OffAir(live),
    }
}

/// Decides whether the channel at `room_url` is to be captured now, given
/// what the store says of it. A channel that is being recorded is refused
/// with `AlreadyRecording`; the platform is then not asked. Otherwise the
/// platform is asked about this very address, and what it answers decides:
/// its failure is handed on, and its descriptor is judged.
///
/// The status is taken as a value, read from the store beforehand, so that no
/// borrow of the store is held while the platform answers.
pub fn start_record_default<R: Recorder>(resolver: &R, status: RecordStatus, room_url: &str) -> (r:
    Result<Resolved, RecordError>)
    ensures
        status == RecordStatus::Recording ==> r == Err::<Resolved, RecordError>(
            RecordError::AlreadyRecording,
        ),
        status == RecordStatus::NotRecording ==> match r {
            Ok(verdict) => exists|live: LiveInfo|
                #[trigger] call_ensures(
                    R::get_live_info,
                    (resolver, room_url),
                    Ok::<LiveInfo, RecordError>(live),
                ) && is_verdict_on(verdict, live@),
            Err(e) => call_ensures(
                R::get_live_info,
                (resolver, room_url),
                Err::<LiveInfo, RecordError>(e),
            ),
        },
{
    match status {
        RecordStatus::Recording => Err(RecordError::AlreadyRecording),
        RecordStatus::NotRecording => match resolver.get_live_info(room_url) {
            Ok(live) => Ok(judge(live)),
            Err(e) => Err(e),
        },
    }
}

/// Whether channels of the platform can be asked about.
pub open spec fn is_supported(kind: PlatformKind) -> bool {
    kind == PlatformKind::Douyin || kind == PlatformKind::Xiaohongshu || kind == PlatformKind::Huya
        || kind == PlatformKind::Tiktok
}

/// The platform to ask about the channel at `url`: the platform that the
/// address belongs to, where channels of that platform can be asked about.
pub fn get_platform_impl(url: &str) -> (r: Result<PlatformKind, RecordError>)
    ensures
        match r {
            Ok(kind) => kind == platform_of(lowercase(url@)) && is_supported(kind),
            Err(e) => !is_supported(platform_of(lowercase(url@))) && e is ResolverFailure
                && e.spec_message() == "Unknown platform: "@ + url@,
        },
{
    let kind = PlatformKind::from_url(url);
    match kind {
        PlatformKind::Douyin => Ok(kind),
        PlatformKind::Xiaohongshu => Ok(kind),
        PlatformKind::Huya => Ok(kind),
        PlatformKind::Tiktok => Ok(kind),
        _ => Err(RecordError::ResolverFailure(String::from_str("Unknown platform: ").concat(url))),
    }
}

} // verus!
