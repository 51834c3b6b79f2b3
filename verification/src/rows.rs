//! How the values of the model are laid out as fields, and back. Every
//! layout is canonical: a list of fields is read as at most one value, and
//! only the list that was written for a value is read as that value.

use crate::model::{
    opt_live_view, streams_view, AppConfig, AppConfigView, LiveInfo, LiveInfoView, LiveStatus,
    PlatformKind, QueryHistory, QueryHistoryView, RecordStatus, RecordingHistory,
    RecordingHistoryView, RecordingOption, RecordingOptionView, RecordingPlan, RecordingPlanView,
    RecordingStrategy, Stream, StreamView, StreamingProtocol,
};
use crate::wire::{
    dec_fields, decode_fields, enc_fields, encode_fields, fields_fit, lemma_decoded_fields_fit,
    lemma_fields_round_trip, view_all, Field, FieldView,
};
use vstd::prelude::*;
use vstd::string::*;

verus! {

// ---------------------------------------------------------------------------
// Variant numbers
// ---------------------------------------------------------------------------
impl StreamingProtocol {
    /// The number of the variant.
    pub open spec fn spec_tag(self) -> u8 {
        match self {
            StreamingProtocol::Flv => 0,
            StreamingProtocol::Hls => 1,
        }
    }

    /// The variant with the given number, if there is one.
    pub open spec fn spec_from_tag(t: u8) -> Option<StreamingProtocol> {
        if t == 0 {
            Some(StreamingProtocol::Flv)
        } else if t == 1 {
            Some(StreamingProtocol::Hls)
        } else {
            None
        }
    }

    /// The number of the variant.
    pub fn tag(&self) -> (t: u8)
        ensures
            t == self.spec_tag(),
            Self::spec_from_tag(t) == Some(*self),
    {
        match self {
            StreamingProtocol::Flv => 0,
            StreamingProtocol::Hls => 1,
        }
    }

    /// The variant with the given number, if there is one.
    pub fn from_tag(t: u8) -> (r: Option<StreamingProtocol>)
        ensures
            r == Self::spec_from_tag(t),
    {
        if t == 0 {
            Some(StreamingProtocol::Flv)
        } else if t == 1 {
            Some(StreamingProtocol::Hls)
        } else {
            None
        }
    }
}

impl LiveStatus {
    /// The number of the variant.
    pub open spec fn spec_tag(self) -> u8 {
        match self {
            LiveStatus::Live => 0,
            LiveStatus::NotLive => 1,
            LiveStatus::Unknown => 2,
        }
    }

    /// The variant with the given number, if there is one.
    pub open spec fn spec_from_tag(t: u8) -> Option<LiveStatus> {
        if t == 0 {
            Some(LiveStatus::Live)
        } else if t == 1 {
            Some(LiveStatus::NotLive)
        } else if t == 2 {
            Some(LiveStatus::Unknown)
        } else {
            None
        }
    }

    /// The number of the variant.
    pub fn tag(&self) -> (t: u8)
        ensures
            t == self.spec_tag(),
            Self::spec_from_tag(t) == Some(*self),
    {
        match self {
            LiveStatus::Live => 0,
            LiveStatus::NotLive => 1,
            LiveStatus::Unknown => 2,
        }
    }

    /// The variant with the given number, if there is one.
    pub fn from_tag(t: u8) -> (r: Option<LiveStatus>)
        ensures
            r == Self::spec_from_tag(t),
    {
        if t == 0 {
            Some(LiveStatus::Live)
        } else if t == 1 {
            Some(LiveStatus::NotLive)
        } else if t == 2 {
            Some(LiveStatus::Unknown)
        } else {
            None
        }
    }
}

impl RecordStatus {
    /// The number of the variant.
    pub open spec fn spec_tag(self) -> u8 {
        match self {
            RecordStatus::Recording => 0,
            RecordStatus::NotRecording => 1,
        }
    }

    /// The variant with the given number, if there is one.
    pub open spec fn spec_from_tag(t: u8) -> Option<RecordStatus> {
        if t == 0 {
            Some(RecordStatus::Recording)
        } else if t == 1 {
            Some(RecordStatus::NotRecording)
        } else {
            None
        }
    }

    /// The number of the variant.
    pub fn tag(&self) -> (t: u8)
        ensures
            t == self.spec_tag(),
            Self::spec_from_tag(t) == Some(*self),
    {
        match self {
            RecordStatus::Recording => 0,
            RecordStatus::NotRecording => 1,
        }
    }

    /// The variant with the given number, if there is one.
    pub fn from_tag(t: u8) -> (r: Option<RecordStatus>)
        ensures
            r == Self::spec_from_tag(t),
    {
        if t == 0 {
            Some(RecordStatus::Recording)
        } else if t == 1 {
            Some(RecordStatus::NotRecording)
        } else {
            None
        }
    }
}

impl PlatformKind {
    /// The number of the variant.
    pub open spec fn spec_tag(self) -> u8 {
        match self {
            PlatformKind::Douyin => 0,
            PlatformKind::Tiktok => 1,
            PlatformKind::Xiaohongshu => 2,
            PlatformKind::Bilibili => 3,
            PlatformKind::Huya => 4,
            PlatformKind::Kuaishou => 5,
            PlatformKind::Douyu => 6,
            PlatformKind::Twitch => 7,
            PlatformKind::Youtube => 8,
            PlatformKind::Unknown => 9,
        }
    }

    /// The variant with the given number, if there is one.
    pub open spec fn spec_from_tag(t: u8) -> Option<PlatformKind> {
        if t == 0 {
            Some(PlatformKind::Douyin)
        } else if t == 1 {
            Some(PlatformKind::Tiktok)
        } else if t == 2 {
            Some(PlatformKind::Xiaohongshu)
        } else if t == 3 {
            Some(PlatformKind::Bilibili)
        } else if t == 4 {
            Some(PlatformKind::Huya)
        } else if t == 5 {
            Some(PlatformKind::Kuaishou)
        } else if t == 6 {
            Some(PlatformKind::Douyu)
        } else if t == 7 {
            Some(PlatformKind::Twitch)
        } else if t == 8 {
            Some(PlatformKind::Youtube)
        } else if t == 9 {
            Some(PlatformKind::Unknown)
        } else {
            None
        }
    }

    /// The number of the variant.
    pub fn tag(&self) -> (t: u8)
        ensures
            t == self.spec_tag(),
            Self::spec_from_tag(t) == Some(*self),
    {
        match self {
            PlatformKind::Douyin => 0,
            PlatformKind::Tiktok => 1,
            PlatformKind::Xiaohongshu => 2,
            PlatformKind::Bilibili => 3,
            PlatformKind::Huya => 4,
            PlatformKind::Kuaishou => 5,
            PlatformKind::Douyu => 6,
            PlatformKind::Twitch => 7,
            PlatformKind::Youtube => 8,
            PlatformKind::Unknown => 9,
        }
    }

    /// The variant with the given number, if there is one.
    pub fn from_tag(t: u8) -> (r: Option<PlatformKind>)
        ensures
            r == Self::spec_from_tag(t),
    {
        if t == 0 {
            Some(PlatformKind::Douyin)
        } else if t == 1 {
            Some(PlatformKind::Tiktok)
        } else if t == 2 {
            Some(PlatformKind::Xiaohongshu)
        } else if t == 3 {
            Some(PlatformKind::Bilibili)
        } else if t == 4 {
            Some(PlatformKind::Huya)
        } else if t == 5 {
            Some(PlatformKind::Kuaishou)
        } else if t == 6 {
            Some(PlatformKind::Douyu)
        } else if t == 7 {
            Some(PlatformKind::Twitch)
        } else if t == 8 {
            Some(PlatformKind::Youtube)
        } else if t == 9 {
            Some(PlatformKind::Unknown)
        } else {
            None
        }
    }
}

impl RecordingStrategy {
    /// The number of the variant.
    pub open spec fn spec_tag(self) -> u8 {
        match self {
            RecordingStrategy::Timed(_, _) => 0,
            RecordingStrategy::TimedWithDuration(_, _) => 1,
            RecordingStrategy::TimedUntilAnchorEnd(_) => 2,
            RecordingStrategy::AnchorLive => 3,
            RecordingStrategy::AnchorLiveWithDuration(_) => 4,
        }
    }

    /// The first number of the variant, 0 where it has none.
    pub open spec fn spec_first(self) -> i64 {
        match self {
            RecordingStrategy::Timed(a, _) => a,
            RecordingStrategy::TimedWithDuration(a, _) => a,
            RecordingStrategy::TimedUntilAnchorEnd(a) => a,
            RecordingStrategy::AnchorLive => 0,
            RecordingStrategy::AnchorLiveWithDuration(a) => a,
        }
    }

    /// The second number of the variant, 0 where it has none.
    pub open spec fn spec_second(self) -> i64 {
        match self {
            RecordingStrategy::Timed(_, b) => b,
            RecordingStrategy::TimedWithDuration(_, b) => b,
            _ => 0,
        }
    }

    /// The strategy with the given variant number and numbers; numbers that
    /// the variant does not have must be 0.
    pub open spec fn spec_from_parts(t: u8, a: i64, b: i64) -> Option<RecordingStrategy> {
        if t == 0 {
            Some(RecordingStrategy::Timed(a, b))
        } else if t == 1 {
            Some(RecordingStrategy::TimedWithDuration(a, b))
        } else if t == 2 && b == 0 {
            Some(RecordingStrategy::TimedUntilAnchorEnd(a))
        } else if t == 3 && a == 0 && b == 0 {
            Some(RecordingStrategy::AnchorLive)
        } else if t == 4 && b == 0 {
            Some(RecordingStrategy::AnchorLiveWithDuration(a))
        } else {
            None
        }
    }

    /// The number of the variant and its two numbers, 0 where it has none.
    pub fn parts(&self) -> (r: (u8, i64, i64))
        ensures
            r == (self.spec_tag(), self.spec_first(), self.spec_second()),
            Self::spec_from_parts(r.0, r.1, r.2) == Some(*self),
    {
        match self {
            RecordingStrategy::Timed(a, b) => (0, *a, *b),
            RecordingStrategy::TimedWithDuration(a, b) => (1, *a, *b),
            RecordingStrategy::TimedUntilAnchorEnd(a) => (2, *a, 0),
            RecordingStrategy::AnchorLive => (3, 0, 0),
            RecordingStrategy::AnchorLiveWithDuration(a) => (4, *a, 0),
        }
    }

    /// The strategy with the given variant number and numbers; numbers that the
    /// variant does not have must be 0.
    pub fn from_parts(t: u8, a: i64, b: i64) -> (r: Option<RecordingStrategy>)
        ensures
            r == Self::spec_from_parts(t, a, b),
            r matches Some(s) ==> s.spec_tag() == t && s.spec_first() == a && s.spec_second() == b,
    {
        if t == 0 {
            Some(RecordingStrategy::Timed(a, b))
        } else if t == 1 {
            Some(RecordingStrategy::TimedWithDuration(a, b))
        } else if t == 2 && b == 0 {
            Some(RecordingStrategy::TimedUntilAnchorEnd(a))
        } else if t == 3 && a == 0 && b == 0 {
            Some(RecordingStrategy::AnchorLive)
        } else if t == 4 && b == 0 {
            Some(RecordingStrategy::AnchorLiveWithDuration(a))
        } else {
            None
        }
    }
}

// ---------------------------------------------------------------------------
// Reading single fields
// ---------------------------------------------------------------------------
/// The text in field `i`, if field `i` is a text.
pub open spec fn text_at(fs: Seq<FieldView>, i: int) -> Option<Seq<char>> {
    if 0 <= i < fs.len() {
        match fs[i] {
            FieldView::Text(s) => Some(s),
            _ => None,
        }
    } else {
        None
    }
}

/// The signed number in field `i`, if field `i` is one.
pub open spec fn int_at(fs: Seq<FieldView>, i: int) -> Option<i64> {
    if 0 <= i < fs.len() {
        match fs[i] {
            FieldView::Int(x) => Some(x),
            _ => None,
        }
    } else {
        None
    }
}

/// The unsigned number in field `i`, if field `i` is one.
pub open spec fn count_at(fs: Seq<FieldView>, i: int) -> Option<u64> {
    if 0 <= i < fs.len() {
        match fs[i] {
            FieldView::Count(x) => Some(x),
            _ => None,
        }
    } else {
        None
    }
}

/// The truth value in field `i`, if field `i` is one.
pub open spec fn flag_at(fs: Seq<FieldView>, i: int) -> Option<bool> {
    if 0 <= i < fs.len() {
        match fs[i] {
            FieldView::Flag(x) => Some(x),
            _ => None,
        }
    } else {
        None
    }
}

/// The variant number in field `i`, if field `i` is one.
pub open spec fn tag_at(fs: Seq<FieldView>, i: int) -> Option<u8> {
    if 0 <= i < fs.len() {
        match fs[i] {
            FieldView::Tag(x) => Some(x),
            _ => None,
        }
    } else {
        None
    }
}

fn take_text(fs: &Vec<Field>, i: usize) -> (r: Option<String>)
    ensures
        match r {
            Some(s) => text_at(view_all(fs@), i as int) == Some(s@),
            None => text_at(view_all(fs@), i as int) is None,
        },
{
    if i < fs.len() {
        match &fs[i] {
            Field::Text(s) => Some(s.clone()),
            _ => None,
        }
    } else {
        None
    }
}

fn take_int(fs: &Vec<Field>, i: usize) -> (r: Option<i64>)
    ensures
        r == int_at(view_all(fs@), i as int),
{
    if i < fs.len() {
        match &fs[i] {
            Field::Int(x) => Some(*x),
            _ => None,
        }
    } else {
        None
    }
}

fn take_count(fs: &Vec<Field>, i: usize) -> (r: Option<u64>)
    ensures
        r == count_at(view_all(fs@), i as int),
{
    if i < fs.len() {
        match &fs[i] {
            Field::Count(x) => Some(*x),
            _ => None,
        }
    } else {
        None
    }
}

fn take_flag(fs: &Vec<Field>, i: usize) -> (r: Option<bool>)
    ensures
        r == flag_at(view_all(fs@), i as int),
{
    if i < fs.len() {
        match &fs[i] {
            Field::Flag(x) => Some(*x),
            _ => None,
        }
    } else {
        None
    }
}

fn take_tag(fs: &Vec<Field>, i: usize) -> (r: Option<u8>)
    ensures
        r == tag_at(view_all(fs@), i as int),
{
    if i < fs.len() {
        match &fs[i] {
            Field::Tag(x) => Some(*x),
            _ => None,
        }
    } else {
        None
    }
}

fn push_text(fs: &mut Vec<Field>, s: &String)
    ensures
        view_all(final(fs)@) == view_all(old(fs)@).push(FieldView::Text(s@)),
{
    fs.push(Field::Text(s.clone()));
    assert(view_all(fs@) =~= view_all(old(fs)@).push(FieldView::Text(s@)));
}

fn push_plain(fs: &mut Vec<Field>, f: Field)
    ensures
        view_all(final(fs)@) == view_all(old(fs)@).push(f@),
{
    fs.push(f);
    assert(view_all(fs@) =~= view_all(old(fs)@).push(f@));
}

// ---------------------------------------------------------------------------
// Streams and live descriptors
// ---------------------------------------------------------------------------
/// The fields of one stream.
pub open spec fn stream_fields(s: StreamView) -> Seq<FieldView> {
    seq![
        FieldView::Text(s.url),
        FieldView::Text(s.resolution),
        FieldView::Tag(s.protocol.spec_tag()),
    ]
}

/// The fields of a list of streams, three for each.
pub open spec fn streams_fields(ss: Seq<StreamView>) -> Seq<FieldView>
    decreases ss.len(),
{
    if ss.len() == 0 {
        Seq::empty()
    } else {
        stream_fields(ss[0]) + streams_fields(ss.drop_first())
    }
}

/// The stream whose three fields start at `at`.
pub open spec fn stream_at(fs: Seq<FieldView>, at: int) -> Option<StreamView> {
    if text_at(fs, at) is Some && text_at(fs, at + 1) is Some && tag_at(fs, at + 2) is Some
        && StreamingProtocol::spec_from_tag(tag_at(fs, at + 2).unwrap()) is Some {
        Some(
            StreamView {
                url: text_at(fs, at).unwrap(),
                resolution: text_at(fs, at + 1).unwrap(),
                protocol: StreamingProtocol::spec_from_tag(tag_at(fs, at + 2).unwrap()).unwrap(),
            },
        )
    } else {
        None
    }
}

/// The `n` streams whose fields fill `fs` from `at` to its end.
pub open spec fn streams_at(fs: Seq<FieldView>, at: int, n: nat) -> Option<Seq<StreamView>>
    decreases n,
{
    if n == 0 {
        if at == fs.len() {
            Some(Seq::empty())
        } else {
            None
        }
    } else {
        match stream_at(fs, at) {
            Some(s) => match streams_at(fs, at + 3, (n - 1) as nat) {
                Some(rest) => Some(seq![s] + rest),
                None => None,
            },
            None => None,
        }
    }
}

/// The fields of a live descriptor: nine of its own, then its streams.
pub open spec fn live_fields(l: LiveInfoView) -> Seq<FieldView> {
    seq![
        FieldView::Text(l.url),
        FieldView::Text(l.anchor_name),
        FieldView::Text(l.anchor_avatar),
        FieldView::Text(l.title),
        FieldView::Tag(l.status.spec_tag()),
        FieldView::Text(l.viewer_count),
        FieldView::Text(l.room_cover),
        FieldView::Tag(l.platform_kind.spec_tag()),
        FieldView::Count(l.streams.len() as u64),
    ] + streams_fields(l.streams)
}

/// The live descriptor whose fields fill `fs` from `at` to its end.
pub open spec fn live_at(fs: Seq<FieldView>, at: int) -> Option<LiveInfoView> {
    if text_at(fs, at) is Some && text_at(fs, at + 1) is Some && text_at(fs, at + 2) is Some
        && text_at(fs, at + 3) is Some && tag_at(fs, at + 4) is Some && text_at(fs, at + 5) is Some
        && text_at(fs, at + 6) is Some && tag_at(fs, at + 7) is Some && count_at(fs, at + 8) is Some
        && LiveStatus::spec_from_tag(tag_at(fs, at + 4).unwrap()) is Some
        && PlatformKind::spec_from_tag(tag_at(fs, at + 7).unwrap()) is Some && streams_at(
        fs,
        at + 9,
        count_at(fs, at + 8).unwrap() as nat,
    ) is Some {
        Some(
            LiveInfoView {
                url: text_at(fs, at).unwrap(),
                anchor_name: text_at(fs, at + 1).unwrap(),
                anchor_avatar: text_at(fs, at + 2).unwrap(),
                title: text_at(fs, at + 3).unwrap(),
                status: LiveStatus::spec_from_tag(tag_at(fs, at + 4).unwrap()).unwrap(),
                viewer_count: text_at(fs, at + 5).unwrap(),
                room_cover: text_at(fs, at + 6).unwrap(),
                streams: streams_at(fs, at + 9, count_at(fs, at + 8).unwrap() as nat).unwrap(),
                platform_kind: PlatformKind::spec_from_tag(tag_at(fs, at + 7).unwrap()).unwrap(),
            },
        )
    } else {
        None
    }
}

/// The fields of an optional live descriptor: a flag, then the descriptor if
/// there is one.
pub open spec fn opt_live_fields(o: Option<LiveInfoView>) -> Seq<FieldView> {
    match o {
        Some(l) => seq![FieldView::Flag(true)] + live_fields(l),
        None => seq![FieldView::Flag(false)],
    }
}

/// The optional live descriptor whose fields fill `fs` from `at` to its end.
pub open spec fn opt_live_at(fs: Seq<FieldView>, at: int) -> Option<Option<LiveInfoView>> {
    match flag_at(fs, at) {
        Some(present) => if present {
            match live_at(fs, at + 1) {
                Some(l) => Some(Some(l)),
                None => None,
            }
        } else if at + 1 == fs.len() {
            Some(None)
        } else {
            None
        },
        None => None,
    }
}

/// The number of streams can be written in eight bytes.
pub open spec fn live_fits(l: LiveInfoView) -> bool {
    l.streams.len() <= u64::MAX && fields_fit(live_fields(l))
}

/// The fields of a list with one more stream end in the fields of that stream.
pub proof fn lemma_streams_fields_push(ss: Seq<StreamView>, s: StreamView)
    ensures
        streams_fields(ss.push(s)) == streams_fields(ss) + stream_fields(s),
    decreases ss.len(),
{
    if ss.len() == 0 {
        assert(ss.push(s).drop_first() =~= Seq::<StreamView>::empty());
        assert(ss.push(s)[0] == s);
        assert(streams_fields(Seq::<StreamView>::empty()) =~= Seq::<FieldView>::empty());
        assert(streams_fields(ss.push(s)) =~= stream_fields(s) + streams_fields(
            ss.push(s).drop_first(),
        ));
        assert(streams_fields(ss.push(s)) =~= streams_fields(ss) + stream_fields(s));
    } else {
        assert(ss.push(s).drop_first() =~= ss.drop_first().push(s));
        lemma_streams_fields_push(ss.drop_first(), s);
        assert(streams_fields(ss.push(s)) =~= streams_fields(ss) + stream_fields(s));
    }
}

/// Streams are read back as they were written.
pub proof fn lemma_streams_round_trip(fs: Seq<FieldView>, at: int, ss: Seq<StreamView>)
    requires
        0 <= at <= fs.len(),
        fs.subrange(at, fs.len() as int) == streams_fields(ss),
    ensures
        streams_at(fs, at, ss.len()) == Some(ss),
    decreases ss.len(),
{
    let tail = fs.subrange(at, fs.len() as int);
    if ss.len() == 0 {
        assert(tail.len() == 0);
        assert(streams_at(fs, at, 0).unwrap() =~= ss);
    } else {
        let head = stream_fields(ss[0]);
        let rest = streams_fields(ss.drop_first());
        assert(tail =~= head + rest);
        assert(tail.len() == 3 + rest.len());
        assert(fs[at] == tail[0] && fs[at + 1] == tail[1] && fs[at + 2] == tail[2]);
        assert(tail[0] == head[0] && tail[1] == head[1] && tail[2] == head[2]);
        assert(stream_at(fs, at) == Some(ss[0]));
        assert(fs.subrange(at + 3, fs.len() as int) =~= rest) by {
            assert forall|i: int| 0 <= i < rest.len() implies fs[at + 3 + i] == rest[i] by {
                assert(tail[3 + i] == (head + rest)[3 + i]);
            }
        }
        lemma_streams_round_trip(fs, at + 3, ss.drop_first());
        assert(seq![ss[0]] + ss.drop_first() =~= ss);
    }
}

/// Only the fields that were written for a list of streams are read as it.
pub proof fn lemma_streams_canonical(fs: Seq<FieldView>, at: int, n: nat)
    requires
        0 <= at <= fs.len(),
    ensures
        streams_at(fs, at, n) matches Some(ss) ==> ss.len() == n && fs.subrange(
            at,
            fs.len() as int,
        ) == streams_fields(ss),
    decreases n,
{
    if n == 0 {
        if at == fs.len() {
            assert(fs.subrange(at, fs.len() as int) =~= streams_fields(Seq::<StreamView>::empty()));
        }
    } else {
        match stream_at(fs, at) {
            Some(s) => {
                lemma_streams_canonical(fs, at + 3, (n - 1) as nat);
                match streams_at(fs, at + 3, (n - 1) as nat) {
                    Some(rest) => {
                        let ss = seq![s] + rest;
                        assert(ss.drop_first() =~= rest);
                        assert(ss[0] == s);
                        assert(fs.subrange(at, fs.len() as int) =~= stream_fields(s)
                            + fs.subrange(at + 3, fs.len() as int));
                    },
                    None => {},
                }
            },
            None => {},
        }
    }
}

/// A live descriptor is read back as it was written.
pub proof fn lemma_live_round_trip(fs: Seq<FieldView>, at: int, l: LiveInfoView)
    requires
        0 <= at <= fs.len(),
        l.streams.len() <= u64::MAX,
        fs.subrange(at, fs.len() as int) == live_fields(l),
    ensures
        live_at(fs, at) == Some(l),
{
    let tail = fs.subrange(at, fs.len() as int);
    let rest = streams_fields(l.streams);
    assert(tail.len() == 9 + rest.len());
    assert forall|i: int| 0 <= i < 9 implies fs[at + i] == live_fields(l)[i] by {
        assert(tail[i] == fs[at + i]);
    }
    assert(fs[at] == live_fields(l)[0]);
    assert(fs[at + 1] == live_fields(l)[1]);
    assert(fs[at + 2] == live_fields(l)[2]);
    assert(fs[at + 3] == live_fields(l)[3]);
    assert(fs[at + 4] == live_fields(l)[4]);
    assert(fs[at + 5] == live_fields(l)[5]);
    assert(fs[at + 6] == live_fields(l)[6]);
    assert(fs[at + 7] == live_fields(l)[7]);
    assert(fs[at + 8] == live_fields(l)[8]);
    assert(fs.subrange(at + 9, fs.len() as int) =~= rest) by {
        assert forall|i: int| 0 <= i < rest.len() implies fs[at + 9 + i] == rest[i] by {
            assert(tail[9 + i] == fs[at + 9 + i]);
            assert(live_fields(l)[9 + i] == rest[i]);
        }
    }
    lemma_streams_round_trip(fs, at + 9, l.streams);
}

/// Only the fields that were written for a live descriptor are read as it.
pub proof fn lemma_live_canonical(fs: Seq<FieldView>, at: int)
    requires
        0 <= at <= fs.len(),
    ensures
        live_at(fs, at) matches Some(l) ==> l.streams.len() <= u64::MAX && fs.subrange(
            at,
            fs.len() as int,
        ) == live_fields(l),
{
    if let Some(l) = live_at(fs, at) {
        lemma_streams_canonical(fs, at + 9, count_at(fs, at + 8).unwrap() as nat);
        assert(fs.subrange(at, fs.len() as int) =~= live_fields(l)) by {
            assert(fs.subrange(at, fs.len() as int) =~= fs.subrange(at, at + 9) + fs.subrange(
                at + 9,
                fs.len() as int,
            ));
            assert(fs.subrange(at, at + 9) =~= live_fields(l).subrange(0, 9));
        }
    }
}

/// An optional live descriptor is read back as it was written.
pub proof fn lemma_opt_live_round_trip(fs: Seq<FieldView>, at: int, o: Option<LiveInfoView>)
    requires
        0 <= at <= fs.len(),
        o matches Some(l) ==> l.streams.len() <= u64::MAX,
        fs.subrange(at, fs.len() as int) == opt_live_fields(o),
    ensures
        opt_live_at(fs, at) == Some(o),
{
    let tail = fs.subrange(at, fs.len() as int);
    assert(tail.len() >= 1);
    assert(fs[at] == tail[0]);
    match o {
        Some(l) => {
            assert(fs.subrange(at + 1, fs.len() as int) =~= live_fields(l)) by {
                assert forall|i: int| 0 <= i < live_fields(l).len() implies fs[at + 1 + i]
                    == live_fields(l)[i] by {
                    assert(tail[1 + i] == fs[at + 1 + i]);
                    assert(opt_live_fields(o)[1 + i] == live_fields(l)[i]);
                }
            }
            lemma_live_round_trip(fs, at + 1, l);
        },
        None => {},
    }
}

/// Only the fields that were written for an optional live descriptor are
/// read as it.
pub proof fn lemma_opt_live_canonical(fs: Seq<FieldView>, at: int)
    requires
        0 <= at <= fs.len(),
    ensures
        opt_live_at(fs, at) matches Some(o) ==> (o matches Some(l) ==> l.streams.len() <= u64::MAX)
            && fs.subrange(at, fs.len() as int) == opt_live_fields(o),
{
    if let Some(o) = opt_live_at(fs, at) {
        match o {
            Some(l) => {
                lemma_live_canonical(fs, at + 1);
                assert(fs.subrange(at, fs.len() as int) =~= seq![fs[at]] + fs.subrange(
                    at + 1,
                    fs.len() as int,
                ));
            },
            None => {
                assert(fs.subrange(at, fs.len() as int) =~= seq![FieldView::Flag(false)]);
            },
        }
    }
}

fn push_streams(fs: &mut Vec<Field>, ss: &Vec<Stream>)
    ensures
        view_all(final(fs)@) == view_all(old(fs)@) + streams_fields(streams_view(ss@)),
{
    let mut i: usize = 0;
    assert(streams_view(ss@.subrange(0, 0)) =~= Seq::<StreamView>::empty());
    assert(view_all(fs@) =~= view_all(old(fs)@) + streams_fields(Seq::<StreamView>::empty()));
    while i < ss.len()
        invariant
            i <= ss@.len(),
            view_all(fs@) == view_all(old(fs)@) + streams_fields(
                streams_view(ss@.subrange(0, i as int)),
            ),
        decreases ss@.len() - i,
    {
        let ghost before = view_all(fs@);
        push_text(fs, &ss[i].url);
        push_text(fs, &ss[i].resolution);
        push_plain(fs, Field::Tag(ss[i].protocol.tag()));
        proof {
            let done = streams_view(ss@.subrange(0, i as int));
            let more = streams_view(ss@.subrange(0, i + 1));
            assert(more =~= done.push(ss@[i as int]@));
            lemma_streams_fields_push(done, ss@[i as int]@);
            assert(view_all(fs@) =~= before + stream_fields(ss@[i as int]@));
            assert(view_all(fs@) =~= view_all(old(fs)@) + streams_fields(more));
        }
        i += 1;
    }
    assert(ss@.subrange(0, i as int) =~= ss@);
}

fn push_live(fs: &mut Vec<Field>, l: &LiveInfo)
    ensures
        view_all(final(fs)@) == view_all(old(fs)@) + live_fields(l@),
        l@.streams.len() <= u64::MAX,
{
    push_text(fs, &l.url);
    push_text(fs, &l.anchor_name);
    push_text(fs, &l.anchor_avatar);
    push_text(fs, &l.title);
    push_plain(fs, Field::Tag(l.status.tag()));
    push_text(fs, &l.viewer_count);
    push_text(fs, &l.room_cover);
    push_plain(fs, Field::Tag(l.platform_kind.tag()));
    push_plain(fs, Field::Count(l.streams.len() as u64));
    push_streams(fs, &l.streams);
    assert(view_all(fs@) =~= view_all(old(fs)@) + live_fields(l@));
}

fn push_opt_live(fs: &mut Vec<Field>, o: &Option<LiveInfo>)
    ensures
        view_all(final(fs)@) == view_all(old(fs)@) + opt_live_fields(opt_live_view(*o)),
        opt_live_view(*o) matches Some(l) ==> l.streams.len() <= u64::MAX,
{
    match o {
        Some(l) => {
            push_plain(fs, Field::Flag(true));
            push_live(fs, l);
            assert(view_all(fs@) =~= view_all(old(fs)@) + opt_live_fields(opt_live_view(*o)));
        },
        None => {
            push_plain(fs, Field::Flag(false));
            assert(view_all(fs@) =~= view_all(old(fs)@) + opt_live_fields(opt_live_view(*o)));
        },
    }
}

fn take_stream(fs: &Vec<Field>, at: usize) -> (r: Option<Stream>)
    requires
        at + 3 <= usize::MAX,
    ensures
        match r {
            Some(s) => stream_at(view_all(fs@), at as int) == Some(s@),
            None => stream_at(view_all(fs@), at as int) is None,
        },
{
    let url = match take_text(fs, at) {
        Some(x) => x,
        None => {
            return None;
        },
    };
    let resolution = match take_text(fs, at + 1) {
        Some(x) => x,
        None => {
            return None;
        },
    };
    let tag = match take_tag(fs, at + 2) {
        Some(x) => x,
        None => {
            return None;
        },
    };
    match StreamingProtocol::from_tag(tag) {
        Some(protocol) => Some(Stream { url, resolution, protocol }),
        None => None,
    }
}

fn take_streams(fs: &Vec<Field>, start: usize, n: u64) -> (r: Option<Vec<Stream>>)
    requires
        start <= fs@.len(),
    ensures
        match r {
            Some(ss) => streams_at(view_all(fs@), start as int, n as nat) == Some(
                streams_view(ss@),
            ),
            None => streams_at(view_all(fs@), start as int, n as nat) is None,
        },
{
    let mut ss: Vec<Stream> = Vec::new();
    let mut at: usize = start;
    let mut i: u64 = 0;
    assert(streams_view(ss@) =~= Seq::<StreamView>::empty());
    while i < n
        invariant
            i <= n,
            at <= fs@.len(),
            streams_at(view_all(fs@), start as int, n as nat) == match streams_at(
                view_all(fs@),
                at as int,
                (n - i) as nat,
            ) {
                Some(rest) => Some(streams_view(ss@) + rest),
                None => None,
            },
        decreases n - i,
    {
        if fs.len() - at < 3 {
            assert(stream_at(view_all(fs@), at as int) is None);
            return None;
        }
        match take_stream(fs, at) {
            Some(s) => {
                proof {
                    let before = streams_view(ss@);
                    let after = streams_view(ss@.push(s));
                    assert(after =~= before.push(s@));
                    match streams_at(view_all(fs@), at + 3, (n - i - 1) as nat) {
                        Some(rest) => {
                            assert(before + (seq![s@] + rest) =~= after + rest);
                        },
                        None => {},
                    }
                }
                ss.push(s);
                at = at + 3;
                i = i + 1;
            },
            None => {
                return None;
            },
        }
    }
    if at == fs.len() {
        assert(streams_view(ss@) + Seq::<StreamView>::empty() =~= streams_view(ss@));
        Some(ss)
    } else {
        None
    }
}

fn take_live(fs: &Vec<Field>, at: usize) -> (r: Option<LiveInfo>)
    requires
        at <= fs@.len(),
    ensures
        match r {
            Some(l) => live_at(view_all(fs@), at as int) == Some(l@),
            None => live_at(view_all(fs@), at as int) is None,
        },
{
    if fs.len() - at < 9 {
        assert(count_at(view_all(fs@), at + 8) is None);
        return None;
    }
    let url = match take_text(fs, at) {
        Some(x) => x,
        None => {
            return None;
        },
    };
    let anchor_name = match take_text(fs, at + 1) {
        Some(x) => x,
        None => {
            return None;
        },
    };
    let anchor_avatar = match take_text(fs, at + 2) {
        Some(x) => x,
        None => {
            return None;
        },
    };
    let title = match take_text(fs, at + 3) {
        Some(x) => x,
        None => {
            return None;
        },
    };
    let status_tag = match take_tag(fs, at + 4) {
        Some(x) => x,
        None => {
            return None;
        },
    };
    let viewer_count = match take_text(fs, at + 5) {
        Some(x) => x,
        None => {
            return None;
        },
    };
    let room_cover = match take_text(fs, at + 6) {
        Some(x) => x,
        None => {
            return None;
        },
    };
    let platform_tag = match take_tag(fs, at + 7) {
        Some(x) => x,
        None => {
            return None;
        },
    };
    let n = match take_count(fs, at + 8) {
        Some(x) => x,
        None => {
            return None;
        },
    };
    let status = match LiveStatus::from_tag(status_tag) {
        Some(x) => x,
        None => {
            return None;
        },
    };
    let platform_kind = match PlatformKind::from_tag(platform_tag) {
        Some(x) => x,
        None => {
            return None;
        },
    };
    let streams = match take_streams(fs, at + 9, n) {
        Some(x) => x,
        None => {
            return None;
        },
    };
    Some(
        LiveInfo {
            url,
            anchor_name,
            anchor_avatar,
            title,
            status,
            viewer_count,
            room_cover,
            streams,
            platform_kind,
        },
    )
}

fn take_opt_live(fs: &Vec<Field>, at: usize) -> (r: Option<Option<LiveInfo>>)
    requires
        at <= fs@.len(),
    ensures
        match r {
            Some(o) => opt_live_at(view_all(fs@), at as int) == Some(opt_live_view(o)),
            None => opt_live_at(view_all(fs@), at as int) is None,
        },
{
    if at >= fs.len() {
        return None;
    }
    match take_flag(fs, at) {
        Some(present) => {
            if present {
                match take_live(fs, at + 1) {
                    Some(l) => Some(Some(l)),
                    None => None,
                }
            } else if fs.len() - at == 1 {
                Some(None)
            } else {
                None
            }
        },
        None => None,
    }
}

// ---------------------------------------------------------------------------
// History rows
// ---------------------------------------------------------------------------
/// The fields of a history row. The size of the file and whether it is gone
/// are not part of the row.
pub open spec fn history_fields(h: RecordingHistoryView) -> Seq<FieldView> {
    seq![
        FieldView::Text(h.url),
        FieldView::Tag(h.status.spec_tag()),
        FieldView::Int(h.start_time),
        FieldView::Int(h.end_time),
        FieldView::Text(h.path),
    ] + opt_live_fields(h.live_info)
}

/// The history row that the fields spell, with the facts about its file
/// blank.
pub open spec fn history_of_fields(fs: Seq<FieldView>) -> Option<RecordingHistoryView> {
    if text_at(fs, 0) is Some && tag_at(fs, 1) is Some && int_at(fs, 2) is Some && int_at(fs, 3)
        is Some && text_at(fs, 4) is Some && RecordStatus::spec_from_tag(tag_at(fs, 1).unwrap())
        is Some && opt_live_at(fs, 5) is Some {
        Some(
            RecordingHistoryView {
                url: text_at(fs, 0).unwrap(),
                status: RecordStatus::spec_from_tag(tag_at(fs, 1).unwrap()).unwrap(),
                start_time: int_at(fs, 2).unwrap(),
                end_time: int_at(fs, 3).unwrap(),
                path: text_at(fs, 4).unwrap(),
                file_size: 0,
                deleted: false,
                live_info: opt_live_at(fs, 5).unwrap(),
            },
        )
    } else {
        None
    }
}

/// The bytes of a history row.
pub open spec fn history_bytes(h: RecordingHistoryView) -> Seq<u8> {
    enc_fields(history_fields(h))
}

/// The history row that the bytes hold, if they hold one.
pub open spec fn history_of_bytes(b: Seq<u8>) -> Option<RecordingHistoryView> {
    match dec_fields(b, 0) {
        Some(fs) => history_of_fields(fs),
        None => None,
    }
}

/// The row can be written: its texts and its list of streams are not too long.
pub open spec fn history_fits(h: RecordingHistoryView) -> bool {
    fields_fit(history_fields(h)) && (h.live_info matches Some(l) ==> l.streams.len() <= u64::MAX)
}

/// What is kept of a row when it is stored: all but the facts about its file.
pub open spec fn stored_history(h: RecordingHistoryView) -> RecordingHistoryView {
    RecordingHistoryView { file_size: 0, deleted: false, ..h }
}

/// A history row written and read back is the row, less the facts about its
/// file.
pub proof fn lemma_history_round_trip(h: RecordingHistoryView)
    requires
        history_fits(h),
    ensures
        history_of_bytes(history_bytes(h)) == Some(stored_history(h)),
{
    let fs = history_fields(h);
    lemma_fields_round_trip(fs);
    assert(fs.subrange(5, fs.len() as int) =~= opt_live_fields(h.live_info));
    lemma_opt_live_round_trip(fs, 5, h.live_info);
    assert(fs[0] == FieldView::Text(h.url));
    assert(fs[1] == FieldView::Tag(h.status.spec_tag()));
    assert(fs[2] == FieldView::Int(h.start_time));
    assert(fs[3] == FieldView::Int(h.end_time));
    assert(fs[4] == FieldView::Text(h.path));
}

/// Whatever is read as a history row can be written again.
pub proof fn lemma_history_read_fits(b: Seq<u8>)
    ensures
        history_of_bytes(b) matches Some(h) ==> history_fits(h) && stored_history(h) == h,
{
    if let Some(h) = history_of_bytes(b) {
        let fs = dec_fields(b, 0).unwrap();
        lemma_decoded_fields_fit(b, 0);
        lemma_opt_live_canonical(fs, 5);
        assert(fs =~= history_fields(h)) by {
            assert(fs =~= fs.subrange(0, 5) + fs.subrange(5, fs.len() as int));
            assert(fs.subrange(0, 5) =~= history_fields(h).subrange(0, 5));
        }
    }
}

impl RecordingHistory {
    /// The bytes under which the row is stored.
    pub fn to_bytes(&self) -> (b: Vec<u8>)
        ensures
            b@ == history_bytes(self@),
            history_fits(self@),
    {
        let mut fs: Vec<Field> = Vec::new();
        assert(view_all(fs@) =~= Seq::<FieldView>::empty());
        push_text(&mut fs, &self.url);
        push_plain(&mut fs, Field::Tag(self.status.tag()));
        push_plain(&mut fs, Field::Int(self.start_time));
        push_plain(&mut fs, Field::Int(self.end_time));
        push_text(&mut fs, &self.path);
        push_opt_live(&mut fs, &self.live_info);
        assert(view_all(fs@) =~= history_fields(self@));
        encode_fields(&fs)
    }

    /// Reads a stored row; the facts about its file come back blank.
    pub fn from_bytes(b: &[u8]) -> (r: Option<RecordingHistory>)
        ensures
            match r {
                Some(h) => history_of_bytes(b@) == Some(h@),
                None => history_of_bytes(b@) is None,
            },
    {
        let fs = match decode_fields(b) {
            Some(x) => x,
            None => {
                return None;
            },
        };
        if fs.len() < 6 {
            assert(opt_live_at(view_all(fs@), 5) is None);
            return None;
        }
        let url = match take_text(&fs, 0) {
            Some(x) => x,
            None => {
                return None;
            },
        };
        let status_tag = match take_tag(&fs, 1) {
            Some(x) => x,
            None => {
                return None;
            },
        };
        let start_time = match take_int(&fs, 2) {
            Some(x) => x,
            None => {
                return None;
            },
        };
        let end_time = match take_int(&fs, 3) {
            Some(x) => x,
            None => {
                return None;
            },
        };
        let path = match take_text(&fs, 4) {
            Some(x) => x,
            None => {
                return None;
            },
        };
        let status = match RecordStatus::from_tag(status_tag) {
            Some(x) => x,
            None => {
                return None;
            },
        };
        let live_info = match take_opt_live(&fs, 5) {
            Some(x) => x,
            None => {
                return None;
            },
        };
        Some(
            RecordingHistory {
                url,
                status,
                start_time,
                end_time,
                path,
                file_size: 0,
                deleted: false,
                live_info,
            },
        )
    }
}

// ---------------------------------------------------------------------------
// Live descriptors as stored values
// ---------------------------------------------------------------------------
/// The bytes of a live descriptor.
pub open spec fn live_bytes(l: LiveInfoView) -> Seq<u8> {
    enc_fields(live_fields(l))
}

/// The live descriptor that the bytes hold, if they hold one.
pub open spec fn live_of_bytes(b: Seq<u8>) -> Option<LiveInfoView> {
    match dec_fields(b, 0) {
        Some(fs) => live_at(fs, 0),
        None => None,
    }
}

/// A live descriptor written and read back is the same descriptor.
pub proof fn lemma_live_bytes_round_trip(l: LiveInfoView)
    requires
        live_fits(l),
    ensures
        live_of_bytes(live_bytes(l)) == Some(l),
{
    let fs = live_fields(l);
    lemma_fields_round_trip(fs);
    assert(fs.subrange(0, fs.len() as int) =~= fs);
    lemma_live_round_trip(fs, 0, l);
}

impl LiveInfo {
    /// The bytes under which the descriptor is stored.
    pub fn to_bytes(&self) -> (b: Vec<u8>)
        ensures
            b@ == live_bytes(self@),
            live_fits(self@),
    {
        let mut fs: Vec<Field> = Vec::new();
        assert(view_all(fs@) =~= Seq::<FieldView>::empty());
        push_live(&mut fs, self);
        assert(view_all(fs@) =~= live_fields(self@));
        encode_fields(&fs)
    }

    /// Reads a stored descriptor.
    pub fn from_bytes(b: &[u8]) -> (r: Option<LiveInfo>)
        ensures
            match r {
                Some(l) => live_of_bytes(b@) == Some(l@),
                None => live_of_bytes(b@) is None,
            },
    {
        match decode_fields(b) {
            Some(fs) => take_live(&fs, 0),
            None => None,
        }
    }
}

// ---------------------------------------------------------------------------
// Plans
// ---------------------------------------------------------------------------
/// The proxy of the options as text: empty where there is none.
pub open spec fn proxy_text(o: RecordingOptionView) -> Seq<char> {
    match o.use_proxy {
        Some(p) => p,
        None => Seq::empty(),
    }
}

/// The fields of a plan.
pub open spec fn plan_fields(p: RecordingPlanView) -> Seq<FieldView> {
    seq![
        FieldView::Text(p.url),
        FieldView::Tag(p.strategy.spec_tag()),
        FieldView::Int(p.strategy.spec_first()),
        FieldView::Int(p.strategy.spec_second()),
        FieldView::Tag(p.stream_protocol.spec_tag()),
        FieldView::Text(p.stream_resolution),
        FieldView::Flag(p.enabled),
        FieldView::Int(p.created_at),
        FieldView::Int(p.updated_at),
        FieldView::Flag(p.option.use_proxy is Some),
        FieldView::Text(proxy_text(p.option)),
        FieldView::Flag(p.option.auto_convert_to_mp4),
        FieldView::Flag(p.option.delete_original_file),
    ] + opt_live_fields(p.live_info)
}

/// The plan that the fields spell.
pub open spec fn plan_of_fields(fs: Seq<FieldView>) -> Option<RecordingPlanView> {
    if text_at(fs, 0) is Some && tag_at(fs, 1) is Some && int_at(fs, 2) is Some && int_at(fs, 3)
        is Some && tag_at(fs, 4) is Some && text_at(fs, 5) is Some && flag_at(fs, 6) is Some
        && int_at(fs, 7) is Some && int_at(fs, 8) is Some && flag_at(fs, 9) is Some && text_at(
        fs,
        10,
    ) is Some && flag_at(fs, 11) is Some && flag_at(fs, 12) is Some
        && RecordingStrategy::spec_from_parts(
        tag_at(fs, 1).unwrap(),
        int_at(fs, 2).unwrap(),
        int_at(fs, 3).unwrap(),
    ) is Some && StreamingProtocol::spec_from_tag(tag_at(fs, 4).unwrap()) is Some && (flag_at(
        fs,
        9,
    ).unwrap() || text_at(fs, 10).unwrap().len() == 0) && opt_live_at(fs, 13) is Some {
        Some(
            RecordingPlanView {
                url: text_at(fs, 0).unwrap(),
                strategy: RecordingStrategy::spec_from_parts(
                    tag_at(fs, 1).unwrap(),
                    int_at(fs, 2).unwrap(),
                    int_at(fs, 3).unwrap(),
                ).unwrap(),
                stream_protocol: StreamingProtocol::spec_from_tag(tag_at(fs, 4).unwrap()).unwrap(),
                stream_resolution: text_at(fs, 5).unwrap(),
                enabled: flag_at(fs, 6).unwrap(),
                created_at: int_at(fs, 7).unwrap(),
                updated_at: int_at(fs, 8).unwrap(),
                live_info: opt_live_at(fs, 13).unwrap(),
                option: RecordingOptionView {
                    use_proxy: if flag_at(fs, 9).unwrap() {
                        Some(text_at(fs, 10).unwrap())
                    } else {
                        None
                    },
                    auto_convert_to_mp4: flag_at(fs, 11).unwrap(),
                    delete_original_file: flag_at(fs, 12).unwrap(),
                },
            },
        )
    } else {
        None
    }
}

/// The bytes of a plan.
pub open spec fn plan_bytes(p: RecordingPlanView) -> Seq<u8> {
    enc_fields(plan_fields(p))
}

/// The plan that the bytes hold, if they hold one.
pub open spec fn plan_of_bytes(b: Seq<u8>) -> Option<RecordingPlanView> {
    match dec_fields(b, 0) {
        Some(fs) => plan_of_fields(fs),
        None => None,
    }
}

/// The plan can be written: its texts and its list of streams are not too long.
pub open spec fn plan_fits(p: RecordingPlanView) -> bool {
    fields_fit(plan_fields(p)) && (p.live_info matches Some(l) ==> l.streams.len() <= u64::MAX)
}

/// A plan written and read back is the same plan.
pub proof fn lemma_plan_round_trip(p: RecordingPlanView)
    requires
        plan_fits(p),
    ensures
        plan_of_bytes(plan_bytes(p)) == Some(p),
{
    let fs = plan_fields(p);
    lemma_fields_round_trip(fs);
    assert(fs.subrange(13, fs.len() as int) =~= opt_live_fields(p.live_info));
    lemma_opt_live_round_trip(fs, 13, p.live_info);
    assert(fs[0] == FieldView::Text(p.url));
    assert(fs[1] == FieldView::Tag(p.strategy.spec_tag()));
    assert(fs[2] == FieldView::Int(p.strategy.spec_first()));
    assert(fs[3] == FieldView::Int(p.strategy.spec_second()));
    assert(fs[4] == FieldView::Tag(p.stream_protocol.spec_tag()));
    assert(fs[5] == FieldView::Text(p.stream_resolution));
    assert(fs[6] == FieldView::Flag(p.enabled));
    assert(fs[7] == FieldView::Int(p.created_at));
    assert(fs[8] == FieldView::Int(p.updated_at));
    assert(fs[9] == FieldView::Flag(p.option.use_proxy is Some));
    assert(fs[10] == FieldView::Text(proxy_text(p.option)));
    assert(fs[11] == FieldView::Flag(p.option.auto_convert_to_mp4));
    assert(fs[12] == FieldView::Flag(p.option.delete_original_file));
    assert(RecordingStrategy::spec_from_parts(
        p.strategy.spec_tag(),
        p.strategy.spec_first(),
        p.strategy.spec_second(),
    ) == Some(p.strategy));
    assert(StreamingProtocol::spec_from_tag(p.stream_protocol.spec_tag()) == Some(
        p.stream_protocol,
    ));
    let q = plan_of_fields(fs).unwrap();
    assert(q.option.use_proxy == p.option.use_proxy);
    assert(q.option == p.option);
}

/// Whatever is read as a plan can be written again.
pub proof fn lemma_plan_read_fits(b: Seq<u8>)
    ensures
        plan_of_bytes(b) matches Some(p) ==> plan_fits(p),
{
    if let Some(p) = plan_of_bytes(b) {
        let fs = dec_fields(b, 0).unwrap();
        lemma_decoded_fields_fit(b, 0);
        lemma_opt_live_canonical(fs, 13);
        assert(fs =~= plan_fields(p)) by {
            assert(fs =~= fs.subrange(0, 13) + fs.subrange(13, fs.len() as int));
            assert(text_at(fs, 10).unwrap() =~= proxy_text(p.option));
            assert(fs.subrange(0, 13) =~= plan_fields(p).subrange(0, 13));
        }
    }
}

impl RecordingPlan {
    /// The bytes under which the plan is stored.
    pub fn to_bytes(&self) -> (b: Vec<u8>)
        ensures
            b@ == plan_bytes(self@),
            plan_fits(self@),
    {
        let mut fs: Vec<Field> = Vec::new();
        assert(view_all(fs@) =~= Seq::<FieldView>::empty());
        let (tag, first, second) = self.strategy.parts();
        push_text(&mut fs, &self.url);
        push_plain(&mut fs, Field::Tag(tag));
        push_plain(&mut fs, Field::Int(first));
        push_plain(&mut fs, Field::Int(second));
        push_plain(&mut fs, Field::Tag(self.stream_protocol.tag()));
        push_text(&mut fs, &self.stream_resolution);
        push_plain(&mut fs, Field::Flag(self.enabled));
        push_plain(&mut fs, Field::Int(self.created_at));
        push_plain(&mut fs, Field::Int(self.updated_at));
        match &self.option.use_proxy {
            Some(proxy) => {
                push_plain(&mut fs, Field::Flag(true));
                push_text(&mut fs, proxy);
            },
            None => {
                push_plain(&mut fs, Field::Flag(false));
                push_plain(&mut fs, Field::Text(String::new()));
            },
        }
        push_plain(&mut fs, Field::Flag(self.option.auto_convert_to_mp4));
        push_plain(&mut fs, Field::Flag(self.option.delete_original_file));
        push_opt_live(&mut fs, &self.live_info);
        assert(view_all(fs@) =~= plan_fields(self@));
        encode_fields(&fs)
    }

    /// Reads a stored plan.
    pub fn from_bytes(b: &[u8]) -> (r: Option<RecordingPlan>)
        ensures
            match r {
                Some(p) => plan_of_bytes(b@) == Some(p@),
                None => plan_of_bytes(b@) is None,
            },
    {
        let fs = match decode_fields(b) {
            Some(x) => x,
            None => {
                return None;
            },
        };
        if fs.len() < 14 {
            assert(opt_live_at(view_all(fs@), 13) is None);
            return None;
        }
        let url = match take_text(&fs, 0) {
            Some(x) => x,
            None => {
                return None;
            },
        };
        let strategy_tag = match take_tag(&fs, 1) {
            Some(x) => x,
            None => {
                return None;
            },
        };
        let first = match take_int(&fs, 2) {
            Some(x) => x,
            None => {
                return None;
            },
        };
        let second = match take_int(&fs, 3) {
            Some(x) => x,
            None => {
                return None;
            },
        };
        let protocol_tag = match take_tag(&fs, 4) {
            Some(x) => x,
            None => {
                return None;
            },
        };
        let stream_resolution = match take_text(&fs, 5) {
            Some(x) => x,
            None => {
                return None;
            },
        };
        let enabled = match take_flag(&fs, 6) {
            Some(x) => x,
            None => {
                return None;
            },
        };
        let created_at = match take_int(&fs, 7) {
            Some(x) => x,
            None => {
                return None;
            },
        };
        let updated_at = match take_int(&fs, 8) {
            Some(x) => x,
            None => {
                return None;
            },
        };
        let has_proxy = match take_flag(&fs, 9) {
            Some(x) => x,
            None => {
                return None;
            },
        };
        let proxy = match take_text(&fs, 10) {
            Some(x) => x,
            None => {
                return None;
            },
        };
        let auto_convert_to_mp4 = match take_flag(&fs, 11) {
            Some(x) => x,
            None => {
                return None;
            },
        };
        let delete_original_file = match take_flag(&fs, 12) {
            Some(x) => x,
            None => {
                return None;
            },
        };
        let strategy = match RecordingStrategy::from_parts(strategy_tag, first, second) {
            Some(x) => x,
            None => {
                return None;
            },
        };
        let stream_protocol = match StreamingProtocol::from_tag(protocol_tag) {
            Some(x) => x,
            None => {
                return None;
            },
        };
        if !has_proxy && proxy.as_str().unicode_len() != 0 {
            return None;
        }
        let live_info = match take_opt_live(&fs, 13) {
            Some(x) => x,
            None => {
                return None;
            },
        };
        let use_proxy = if has_proxy {
            Some(proxy)
        } else {
            None
        };
        Some(
            RecordingPlan {
                url,
                strategy,
                stream_protocol,
                stream_resolution,
                enabled,
                created_at,
                updated_at,
                live_info,
                option: RecordingOption { use_proxy, auto_convert_to_mp4, delete_original_file },
            },
        )
    }
}

// ---------------------------------------------------------------------------
// Configuration and lookups
// ---------------------------------------------------------------------------
/// The fields of the configuration.
pub open spec fn config_fields(c: AppConfigView) -> Seq<FieldView> {
    seq![
        FieldView::Text(c.ffmpeg_path),
        FieldView::Text(c.save_path),
        FieldView::Count(c.live_info_check_interval),
    ]
}

/// The configuration that the fields spell.
pub open spec fn config_of_fields(fs: Seq<FieldView>) -> Option<AppConfigView> {
    if fs.len() == 3 && text_at(fs, 0) is Some && text_at(fs, 1) is Some && count_at(fs, 2)
        is Some {
        Some(
            AppConfigView {
                ffmpeg_path: text_at(fs, 0).unwrap(),
                save_path: text_at(fs, 1).unwrap(),
                live_info_check_interval: count_at(fs, 2).unwrap(),
            },
        )
    } else {
        None
    }
}

/// The bytes of the configuration.
pub open spec fn config_bytes(c: AppConfigView) -> Seq<u8> {
    enc_fields(config_fields(c))
}

/// The configuration that the bytes hold, if they hold one.
pub open spec fn config_of_bytes(b: Seq<u8>) -> Option<AppConfigView> {
    match dec_fields(b, 0) {
        Some(fs) => config_of_fields(fs),
        None => None,
    }
}

/// A configuration written and read back is the same configuration.
pub proof fn lemma_config_round_trip(c: AppConfigView)
    requires
        fields_fit(config_fields(c)),
    ensures
        config_of_bytes(config_bytes(c)) == Some(c),
{
    lemma_fields_round_trip(config_fields(c));
}

impl AppConfig {
    /// The bytes under which the configuration is stored.
    pub fn to_bytes(&self) -> (b: Vec<u8>)
        ensures
            b@ == config_bytes(self@),
            fields_fit(config_fields(self@)),
    {
        let mut fs: Vec<Field> = Vec::new();
        assert(view_all(fs@) =~= Seq::<FieldView>::empty());
        push_text(&mut fs, &self.ffmpeg_path);
        push_text(&mut fs, &self.save_path);
        push_plain(&mut fs, Field::Count(self.live_info_check_interval));
        assert(view_all(fs@) =~= config_fields(self@));
        encode_fields(&fs)
    }

    /// Reads a stored configuration.
    pub fn from_bytes(b: &[u8]) -> (r: Option<AppConfig>)
        ensures
            match r {
                Some(c) => config_of_bytes(b@) == Some(c@),
                None => config_of_bytes(b@) is None,
            },
    {
        let fs = match decode_fields(b) {
            Some(x) => x,
            None => {
                return None;
            },
        };
        if fs.len() != 3 {
            return None;
        }
        let ffmpeg_path = match take_text(&fs, 0) {
            Some(x) => x,
            None => {
                return None;
            },
        };
        let save_path = match take_text(&fs, 1) {
            Some(x) => x,
            None => {
                return None;
            },
        };
        let live_info_check_interval = match take_count(&fs, 2) {
            Some(x) => x,
            None => {
                return None;
            },
        };
        Some(AppConfig { ffmpeg_path, save_path, live_info_check_interval })
    }
}

/// The fields of a lookup.
pub open spec fn query_fields(q: QueryHistoryView) -> Seq<FieldView> {
    seq![
        FieldView::Text(q.url),
        FieldView::Text(q.anchor_name),
        FieldView::Text(q.platform_kind),
        FieldView::Int(q.created_at),
    ]
}

/// The lookup that the fields spell.
pub open spec fn query_of_fields(fs: Seq<FieldView>) -> Option<QueryHistoryView> {
    if fs.len() == 4 && text_at(fs, 0) is Some && text_at(fs, 1) is Some && text_at(fs, 2) is Some
        && int_at(fs, 3) is Some {
        Some(
            QueryHistoryView {
                url: text_at(fs, 0).unwrap(),
                anchor_name: text_at(fs, 1).unwrap(),
                platform_kind: text_at(fs, 2).unwrap(),
                created_at: int_at(fs, 3).unwrap(),
            },
        )
    } else {
        None
    }
}

/// The bytes of a lookup.
pub open spec fn query_bytes(q: QueryHistoryView) -> Seq<u8> {
    enc_fields(query_fields(q))
}

/// The lookup that the bytes hold, if they hold one.
pub open spec fn query_of_bytes(b: Seq<u8>) -> Option<QueryHistoryView> {
    match dec_fields(b, 0) {
        Some(fs) => query_of_fields(fs),
        None => None,
    }
}

/// A lookup written and read back is the same lookup.
pub proof fn lemma_query_round_trip(q: QueryHistoryView)
    requires
        fields_fit(query_fields(q)),
    ensures
        query_of_bytes(query_bytes(q)) == Some(q),
{
    lemma_fields_round_trip(query_fields(q));
}

impl QueryHistory {
    /// The bytes under which the lookup is stored.
    pub fn to_bytes(&self) -> (b: Vec<u8>)
        ensures
            b@ == query_bytes(self@),
            fields_fit(query_fields(self@)),
    {
        let mut fs: Vec<Field> = Vec::new();
        assert(view_all(fs@) =~= Seq::<FieldView>::empty());
        push_text(&mut fs, &self.url);
        push_text(&mut fs, &self.anchor_name);
        push_text(&mut fs, &self.platform_kind);
        push_plain(&mut fs, Field::Int(self.created_at));
        assert(view_all(fs@) =~= query_fields(self@));
        encode_fields(&fs)
    }

    /// Reads a stored lookup.
    pub fn from_bytes(b: &[u8]) -> (r: Option<QueryHistory>)
        ensures
            match r {
                Some(q) => query_of_bytes(b@) == Some(q@),
                None => query_of_bytes(b@) is None,
            },
    {
        let fs = match decode_fields(b) {
            Some(x) => x,
            None => {
                return None;
            },
        };
        if fs.len() != 4 {
            return None;
        }
        let url = match take_text(&fs, 0) {
            Some(x) => x,
            None => {
                return None;
            },
        };
        let anchor_name = match take_text(&fs, 1) {
            Some(x) => x,
            None => {
                return None;
            },
        };
        let platform_kind = match take_text(&fs, 2) {
            Some(x) => x,
            None => {
                return None;
            },
        };
        let created_at = match take_int(&fs, 3) {
            Some(x) => x,
            None => {
                return None;
            },
        };
        Some(QueryHistory { url, anchor_name, platform_kind, created_at })
    }
}

} // verus!
