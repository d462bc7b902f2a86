//! Fragmented-MP4 remuxing: each batch of demuxed samples becomes one media segment, with
//! its timestamps carried on from the previous segment of the same track.
use vstd::prelude::*;
use vstd::string::{StrSliceExecFns, StringExecFns};
use crate::bytes::push_all;
use crate::flv_demuxer::{
    AudioSample, AudioTrack, AudioTrackMetaData, TrackMetaData, Unit, VideoSample, VideoTrack,
    VideoTrackMetaData, audio_sample_wf, audio_total, units_bytes, video_sample_bytes,
    video_sample_wf, video_total,
};
use crate::media_segment_info::{
    MediaSegmentInfo, MediaSegmentInfoList, SampleInfo, insert_index, lemma_search_before_range,
    search_before,
};
use crate::mp4_generator::{
    FragmentTrack, Mp4Sample, SampleFlags, TrackType, box_bytes, fourcc, mdat, moof, spec_init_segment,
    spec_moof,
};

verus! {

// ---------------------------------------------------------------- bounds

/// Largest magnitude of a sample timestamp or composition offset the remuxer takes.
pub open spec fn TIME_LIMIT() -> int {
    0x200_0000_0000
}

/// Largest reference frame duration, in timescale units.
pub open spec fn REF_LIMIT() -> int {
    0x1000_0000_0000
}

/// Largest dts correction applied (2^59, where 64-bit times run short); beyond it the
/// timeline restarts uncorrected.
pub open spec fn CORRECTION_LIMIT() -> int {
    0x800_0000_0000_0000
}

/// Bound on the next video dts the remuxer carries: from within it, any batch is corrected
/// in full. Past it (some 18 million years in milliseconds) the timeline starts over.
pub open spec fn NEXT_LIMIT() -> int {
    CORRECTION_LIMIT() - 2 * TIME_LIMIT()
}

/// Bound on the times the remuxer keeps from one batch to the next.
pub open spec fn KEPT_LIMIT() -> int {
    0x1000_0000_0000_0000
}

/// Bound on the bytes and the samples of a track handed to the remuxer.
pub open spec fn TRACK_LIMIT() -> int {
    usize::MAX as int / 64
}

pub open spec fn within(x: int, b: int) -> bool {
    -b <= x <= b
}

/// A video sample whose times the remuxer can take.
pub open spec fn video_sample_ok(s: VideoSample) -> bool {
    &&& video_sample_wf(s)
    &&& within(s.dts as int, TIME_LIMIT())
    &&& within(s.cts as int, TIME_LIMIT())
    &&& s.length <= TRACK_LIMIT()
}

/// An audio sample whose times the remuxer can take.
pub open spec fn audio_sample_ok(s: AudioSample) -> bool {
    &&& audio_sample_wf(s)
    &&& within(s.dts as int, TIME_LIMIT())
    &&& s.length <= TRACK_LIMIT()
}

/// A video track the remuxer can take.
pub open spec fn video_track_ok(t: &VideoTrack) -> bool {
    &&& t.wf()
    &&& t.length <= TRACK_LIMIT()
    &&& t.samples@.len() <= TRACK_LIMIT()
    &&& forall|i: int| 0 <= i < t.samples@.len() ==> video_sample_ok(#[trigger] t.samples@[i])
}

/// An audio track the remuxer can take.
pub open spec fn audio_track_ok(t: &AudioTrack) -> bool {
    &&& t.wf()
    &&& t.length <= TRACK_LIMIT()
    &&& t.samples@.len() <= TRACK_LIMIT()
    &&& forall|i: int| 0 <= i < t.samples@.len() ==> audio_sample_ok(#[trigger] t.samples@[i])
}

/// The times of a segment record that later corrections read stay bounded.
pub open spec fn seg_kept(seg: MediaSegmentInfo) -> bool {
    match seg.lastSample {
        None => true,
        Some(l) => within(l.dts as int, KEPT_LIMIT()) && within(l.duration as int, KEPT_LIMIT())
            && within(l.originalDts as int, KEPT_LIMIT()),
    }
}

pub open spec fn segs_kept(segs: Seq<MediaSegmentInfo>) -> bool {
    forall|i: int| 0 <= i < segs.len() ==> seg_kept(#[trigger] segs[i])
}

// ---------------------------------------------------------------- outputs

/// The initialization segment of one track.
pub struct InitSegment {
    pub _type: TrackType,
    pub data: Vec<u8>,
    pub codec: String,
    pub container: String,
    pub mediaDuration: u32,
}

/// One media segment: a `moof` and its `mdat` (raw MPEG audio has no `moof`).
pub struct MediaSegment {
    pub _type: TrackType,
    pub data: Vec<u8>,
    pub sampleCount: usize,
    pub info: MediaSegmentInfo,
    /// Where an MPEG audio buffer starts on the timeline, set on the first segment after a seek.
    pub timestampOffset: Option<i64>,
}

/// What the remuxer hands out.
pub enum RemuxOutput {
    Init(InitSegment),
    Media(MediaSegment),
}

// ---------------------------------------------------------------- batches

/// The samples of a batch but the last one, and the last one when there are several.
pub open spec fn take_last<T>(samples: Seq<T>) -> (Seq<T>, Option<T>) {
    if samples.len() > 1 {
        (samples.drop_last(), Some(samples.last()))
    } else {
        (samples, None)
    }
}

/// A batch with the sample stashed from the previous batch in front.
pub open spec fn with_stash<T>(body: Seq<T>, stash: Option<T>) -> Seq<T> {
    match stash {
        Some(s) => seq![s] + body,
        None => body,
    }
}

/// The dts correction before it is bounded: from the expected next dts when there is one,
/// else from the last sample recorded before `fo` in `segs`, allowing a gap of up to 3.
pub open spec fn raw_correction(fo: int, next: Option<i64>, segs: Seq<MediaSegmentInfo>) -> int {
    match next {
        Some(n) => fo - n,
        None => if segs.len() == 0 {
            0
        } else {
            let idx = search_before(segs, fo as i64);
            if idx < 0 {
                0
            } else {
                match segs[idx].lastSample {
                    None => 0,
                    Some(l) => {
                        let d = fo - (l.originalDts + l.duration);
                        let d2 = if d <= 3 { 0 } else { d };
                        fo - (l.dts + l.duration + d2)
                    },
                }
            }
        },
    }
}

/// The dts correction applied to a batch whose first original dts is `fo`.
pub open spec fn spec_correction(fo: int, next: Option<i64>, segs: Seq<MediaSegmentInfo>) -> int {
    let c = raw_correction(fo, next, segs);
    if within(c, CORRECTION_LIMIT()) {
        c
    } else {
        0
    }
}

fn correction(fo: i64, next: Option<i64>, list: &MediaSegmentInfoList) -> (r: i64)
    requires
        list.wf(),
        segs_kept(list.segments()),
        within(fo as int, 2 * TIME_LIMIT()),
        match next {
            Some(n) => within(n as int, KEPT_LIMIT()),
            None => true,
        },
    ensures
        r == spec_correction(fo as int, next, list.segments()),
        within(r as int, CORRECTION_LIMIT()),
{
    let c: i64 = match next {
        Some(n) => fo - n,
        None => {
            if list.isEmpty() {
                0
            } else {
                match list.getLastSampleBefore(fo) {
                    Some(l) => {
                        proof {
                            let idx = search_before(list.segments(), fo);
                            lemma_search_before_range(list.segments(), fo);
                            assert(seg_kept(list.segments()[idx]));
                        }
                        let mut distance = fo - (l.originalDts + l.duration);
                        if distance <= 3 {
                            distance = 0;
                        }
                        let expectedDts = l.dts + l.duration + distance;
                        fo - expectedDts
                    },
                    None => 0,
                }
            }
        },
    };
    if -0x800_0000_0000_0000i64 <= c && c <= 0x800_0000_0000_0000i64 {
        c
    } else {
        0
    }
}

/// The bytes of a batch of video samples, in order.
pub open spec fn video_batch_bytes(b: Seq<VideoSample>) -> Seq<u8> {
    b.map_values(|s: VideoSample| video_sample_bytes(s)).flatten()
}

/// Sequence number of the next fragment (32-bit, wrapping).
pub open spec fn next_seq(n: u32) -> u32 {
    ((n + 1) % 0x1_0000_0000) as u32
}

fn next_sequence_number(n: u32) -> (r: u32)
    ensures
        r == next_seq(n),
{
    if n == u32::MAX {
        0
    } else {
        n + 1
    }
}

proof fn lemma_video_total_prepend(s: VideoSample, body: Seq<VideoSample>)
    ensures
        video_total(seq![s] + body) == s.length + video_total(body),
    decreases body.len(),
{
    let whole = seq![s] + body;
    if body.len() > 0 {
        assert(whole.drop_last() =~= seq![s] + body.drop_last());
        assert(whole.last() == body.last());
        lemma_video_total_prepend(s, body.drop_last());
        assert(video_total(whole) == video_total(whole.drop_last()) + whole.last().length);
        assert(video_total(body) == video_total(body.drop_last()) + body.last().length);
    } else {
        assert(whole.drop_last() =~= Seq::<VideoSample>::empty());
        assert(whole.last() == s);
        assert(video_total(whole) == video_total(whole.drop_last()) + whole.last().length);
        assert(video_total(whole.drop_last()) == 0);
    }
}

proof fn lemma_video_batch_bytes(b: Seq<VideoSample>)
    requires
        forall|i: int| 0 <= i < b.len() ==> video_sample_wf(#[trigger] b[i]),
    ensures
        video_batch_bytes(b).len() == video_total(b),
    decreases b.len(),
{
    if b.len() > 0 {
        let f = |s: VideoSample| video_sample_bytes(s);
        assert(b.map_values(f) =~= b.drop_last().map_values(f).push(video_sample_bytes(b.last())));
        b.drop_last().map_values(f).lemma_flatten_push(video_sample_bytes(b.last()));
        assert(video_sample_wf(b[b.len() - 1]));
        lemma_video_batch_bytes(b.drop_last());
    } else {
        assert(b.map_values(|s: VideoSample| video_sample_bytes(s)) =~= Seq::<Seq<u8>>::empty());
    }
}

proof fn lemma_video_batch_bytes_take(b: Seq<VideoSample>, i: int)
    requires
        0 <= i < b.len(),
    ensures
        video_batch_bytes(b.take(i + 1)) == video_batch_bytes(b.take(i)) + video_sample_bytes(b[i]),
{
    let f = |s: VideoSample| video_sample_bytes(s);
    assert(b.take(i + 1).map_values(f) =~= b.take(i).map_values(f).push(video_sample_bytes(b[i])));
    b.take(i).map_values(f).lemma_flatten_push(video_sample_bytes(b[i]));
}

proof fn lemma_video_total_bound(ss: Seq<VideoSample>, i: int)
    requires
        0 <= i < ss.len(),
    ensures
        ss[i].length <= video_total(ss),
    decreases ss.len(),
{
    if i < ss.len() - 1 {
        lemma_video_total_bound(ss.drop_last(), i);
    }
}

/// Appends the bytes of `units` to `v`.
fn push_units(v: &mut Vec<u8>, units: &Vec<Unit>)
    ensures
        final(v)@ == old(v)@ + units_bytes(units@),
{
    let mut j: usize = 0;
    while j < units.len()
        invariant
            j <= units@.len(),
            v@ == old(v)@ + units_bytes(units@.take(j as int)),
        decreases units@.len() - j,
    {
        proof {
            let f = |u: Unit| u.data@;
            assert(units@.take(j + 1).map_values(f) =~= units@.take(j as int).map_values(f).push(units@[j as int].data@));
            units@.take(j as int).map_values(f).lemma_flatten_push(units@[j as int].data@);
        }
        push_all(v, units[j].data.as_slice());
        j = j + 1;
    }
    assert(units@.take(units@.len() as int) =~= units@);
}

// ---------------------------------------------------------------- video samples

/// Duration of sample `i` of a video batch: up to the next sample, else up to the stashed
/// sample, else that of the sample before, else the reference duration.
pub open spec fn video_duration(b: Seq<VideoSample>, i: int, last_dts: Option<i64>, refd: int) -> int {
    if i < b.len() - 1 {
        b[i + 1].dts - b[i].dts
    } else {
        match last_dts {
            Some(ld) => ld - b[i].dts,
            None => if i >= 1 {
                b[i].dts - b[i - 1].dts
            } else {
                refd
            },
        }
    }
}

/// Flags of a video sample; `forced` marks the first sample forced to a random access point.
pub open spec fn video_flags(key: bool, forced: bool) -> SampleFlags {
    SampleFlags {
        isLeading: 0,
        dependsOn: if key || forced { 2 } else { 1 },
        isDependedOn: if key { 1 } else { 0 },
        hasRedundancy: 0,
        isNonSync: if key || forced { 0 } else { 1 },
    }
}

/// Sample `i` of a video batch as written into the fragment.
pub open spec fn video_out(
    b: Seq<VideoSample>,
    i: int,
    base: int,
    corr: int,
    last_dts: Option<i64>,
    refd: int,
    force_first: bool,
) -> Mp4Sample {
    let dts = b[i].dts - base - corr;
    Mp4Sample {
        dts: dts as i64,
        pts: (dts + b[i].cts) as i64,
        cts: b[i].cts,
        duration: video_duration(b, i, last_dts, refd) as i64,
        size: b[i].length,
        originalDts: (b[i].dts - base) as i64,
        isKeyframe: b[i].isKeyframe,
        flags: video_flags(b[i].isKeyframe, force_first && i == 0),
    }
}

/// All samples of a video batch as written into the fragment.
pub open spec fn video_outs(
    b: Seq<VideoSample>,
    base: int,
    corr: int,
    last_dts: Option<i64>,
    refd: int,
    force_first: bool,
) -> Seq<Mp4Sample> {
    Seq::new(b.len(), |i: int| video_out(b, i, base, corr, last_dts, refd, force_first))
}

/// What each written video sample says of its source sample: a keyframe (or the first
/// sample when it is forced to be one) is a sync sample that depends on no other, any other
/// sample is a non-sync sample that depends on others; only keyframes are depended on. Its
/// dts is the source dts less the base and the correction, its pts lies the composition
/// offset after, its size is the source size, and each sample lasts until the next begins.
pub proof fn lemma_video_out_samples(
    b: Seq<VideoSample>,
    base: int,
    corr: int,
    last_dts: Option<i64>,
    refd: int,
    force_first: bool,
    k: int,
)
    requires
        0 <= k < b.len(),
        forall|i: int| 0 <= i < b.len() ==> video_sample_ok(#[trigger] b[i]),
        within(base, TIME_LIMIT()),
        within(corr, CORRECTION_LIMIT()),
    ensures
        ({
            let o = video_outs(b, base, corr, last_dts, refd, force_first)[k];
            let sync = b[k].isKeyframe || (force_first && k == 0);
            &&& (o.flags.isNonSync == 0) == sync
            &&& o.flags.isNonSync == 0 || o.flags.isNonSync == 1
            &&& o.flags.dependsOn == if sync { 2u8 } else { 1u8 }
            &&& o.flags.isDependedOn == if b[k].isKeyframe { 1u8 } else { 0u8 }
            &&& o.flags.isLeading == 0 && o.flags.hasRedundancy == 0
            &&& o.isKeyframe == b[k].isKeyframe
            &&& o.dts == b[k].dts - base - corr
            &&& o.pts - o.dts == b[k].cts
            &&& o.originalDts == b[k].dts - base
            &&& o.size == b[k].length
            &&& k + 1 < b.len() ==> o.dts + o.duration
                == video_outs(b, base, corr, last_dts, refd, force_first)[k + 1].dts
        }),
{
    let o = video_outs(b, base, corr, last_dts, refd, force_first)[k];
    assert(video_sample_ok(b[k]));
    if k + 1 < b.len() {
        assert(video_sample_ok(b[k + 1]));
    }
}

/// The random access points among the first `n` samples of a video batch.
pub open spec fn video_sync_points(
    b: Seq<VideoSample>,
    n: int,
    base: int,
    corr: int,
    last_dts: Option<i64>,
    refd: int,
) -> Seq<SampleInfo>
    decreases n,
{
    if n <= 0 {
        Seq::empty()
    } else {
        let prev = video_sync_points(b, n - 1, base, corr, last_dts, refd);
        let i = n - 1;
        if b[i].isKeyframe {
            let m = video_out(b, i, base, corr, last_dts, refd, false);
            prev.push(
                SampleInfo {
                    dts: m.dts,
                    pts: m.pts,
                    duration: m.duration,
                    originalDts: b[i].dts,
                    isSyncPoint: true,
                    fileposition: b[i].fileposition,
                },
            )
        } else {
            prev
        }
    }
}

/// The record of a segment holding `ms`, with random access points `sync`.
pub open spec fn info_is(info: MediaSegmentInfo, ms: Seq<Mp4Sample>, sync: Seq<SampleInfo>) -> bool {
    let f = ms[0];
    let l = ms.last();
    &&& info.beginDts == f.dts
    &&& info.endDts == l.dts + l.duration
    &&& info.beginPts == f.pts
    &&& info.endPts == l.pts + l.duration
    &&& info.originalBeginDts == f.originalDts
    &&& info.originalEndDts == l.originalDts + l.duration
    &&& info.firstSample == Some(
        SampleInfo {
            dts: f.dts,
            pts: f.pts,
            duration: f.duration,
            originalDts: f.originalDts,
            isSyncPoint: f.isKeyframe,
            fileposition: None,
        },
    )
    &&& info.lastSample == Some(
        SampleInfo {
            dts: l.dts,
            pts: l.pts,
            duration: l.duration,
            originalDts: l.originalDts,
            isSyncPoint: l.isKeyframe,
            fileposition: None,
        },
    )
    &&& info.syncPoints@ == sync
}

// ---------------------------------------------------------------- the remuxer

/// A position on the audio timeline: `num / den` timescale units.
#[derive(Clone, Copy)]
pub struct AudioClock {
    pub num: i128,
    pub den: u64,
}

pub open spec fn clock_ok(c: AudioClock) -> bool {
    &&& 1 <= c.den <= 0x1_0000_0000
    &&& within(c.num as int, 0x1000_0000_0000_0000 * c.den)
}

/// `"mp3"`.
pub open spec fn is_mp3(codec: Seq<char>) -> bool {
    codec == seq!['m', 'p', '3']
}

/// Whether a codec string is `"mp3"`.
pub fn codec_is_mp3(codec: &String) -> (r: bool)
    ensures
        r == is_mp3(codec@),
{
    let c = codec.as_str();
    let n = c.unicode_len();
    if n != 3 {
        return false;
    }
    let a = c.get_char(0);
    let b = c.get_char(1);
    let d = c.get_char(2);
    let r = a == 'm' && b == 'p' && d == '3';
    proof {
        if r {
            assert(codec@ =~= seq!['m', 'p', '3']);
        }
    }
    r
}

/// Bounds on the audio metadata the remuxer keeps; frames of a codec other than MP3
/// have a known length.
pub open spec fn audio_meta_ok(m: AudioTrackMetaData) -> bool {
    &&& m.refSampleDurationNum <= REF_LIMIT()
    &&& m.refSampleDurationDen <= 0x1_0000_0000
    &&& !is_mp3(m.meta.codec@) ==> m.refSampleDurationDen >= 1
}

/// Turns demuxed samples into fragmented-MP4 segments, track by track.
pub struct MP4Remuxer {
    pub _isLive: bool,
    /// MP3 goes out as a raw `audio/mpeg` stream instead of fragments.
    pub _mp3UseMpegAudio: bool,
    /// The first sample of each video segment is marked as a random access point.
    pub _forceFirstIDR: bool,
    pub _dtsBase: i64,
    pub _dtsBaseInited: bool,
    pub _audioDtsBase: Option<i64>,
    pub _videoDtsBase: Option<i64>,
    pub _audioNextDts: Option<AudioClock>,
    pub _videoNextDts: Option<i64>,
    pub _audioStashedLastSample: Option<AudioSample>,
    pub _videoStashedLastSample: Option<VideoSample>,
    pub _audioMeta: Option<AudioTrackMetaData>,
    pub _videoMeta: Option<VideoTrackMetaData>,
    pub _audioSegmentInfoList: MediaSegmentInfoList,
    pub _videoSegmentInfoList: MediaSegmentInfoList,
}

/// `l1` is `l0` with a copy of `info` inserted where its original dts puts it (a list as
/// long as `isize` allows is left as it is).
pub open spec fn list_appended(l0: MediaSegmentInfoList, l1: MediaSegmentInfoList, info: MediaSegmentInfo) -> bool {
    if l0.segments().len() + 2 < isize::MAX {
        let idx = insert_index(l0.segments(), l0.last_append(), info.originalBeginDts);
        &&& l1.last_append() == idx
        &&& l1.track_type() == l0.track_type()
        &&& l1.segments().len() == l0.segments().len() + 1
        &&& l1.segments()[idx].same_as(&info)
        &&& l1.segments().take(idx) == l0.segments().take(idx)
        &&& l1.segments().skip(idx + 1) == l0.segments().skip(idx)
    } else {
        l1 == l0
    }
}

/// Everything but the video state is as before.
pub open spec fn video_only_changed(a: MP4Remuxer, b: MP4Remuxer) -> bool {
    &&& b._isLive == a._isLive
    &&& b._mp3UseMpegAudio == a._mp3UseMpegAudio
    &&& b._forceFirstIDR == a._forceFirstIDR
    &&& b._dtsBase == a._dtsBase
    &&& b._dtsBaseInited == a._dtsBaseInited
    &&& b._audioDtsBase == a._audioDtsBase
    &&& b._videoDtsBase == a._videoDtsBase
    &&& b._audioNextDts == a._audioNextDts
    &&& b._audioStashedLastSample == a._audioStashedLastSample
    &&& b._audioMeta == a._audioMeta
    &&& b._videoMeta == a._videoMeta
    &&& b._audioSegmentInfoList == a._audioSegmentInfoList
}

/// Everything but the audio state is as before.
pub open spec fn audio_only_changed(a: MP4Remuxer, b: MP4Remuxer) -> bool {
    &&& b._isLive == a._isLive
    &&& b._mp3UseMpegAudio == a._mp3UseMpegAudio
    &&& b._forceFirstIDR == a._forceFirstIDR
    &&& b._dtsBase == a._dtsBase
    &&& b._dtsBaseInited == a._dtsBaseInited
    &&& b._audioDtsBase == a._audioDtsBase
    &&& b._videoDtsBase == a._videoDtsBase
    &&& b._videoNextDts == a._videoNextDts
    &&& b._videoStashedLastSample == a._videoStashedLastSample
    &&& b._audioMeta == a._audioMeta
    &&& b._videoMeta == a._videoMeta
    &&& b._videoSegmentInfoList == a._videoSegmentInfoList
}

/// What remuxing a video batch does: `t0` is the track handed in, `s0` the remuxer before.
pub open spec fn video_remuxed(s0: MP4Remuxer, t0: VideoTrack, s1: MP4Remuxer, t1: VideoTrack, r: Option<MediaSegment>) -> bool {
    let (body, last) = take_last(t0.samples@);
    let b = with_stash(body, s0._videoStashedLastSample);
    let last_dts = match last {
        Some(l) => Some(l.dts),
        None => None,
    };
    let base = s0._dtsBase as int;
    let corr = spec_correction(b[0].dts - base, s0._videoNextDts, s0._videoSegmentInfoList.segments());
    let refd = s0._videoMeta->Some_0.refSampleDuration as int;
    let ms = video_outs(b, base, corr, last_dts, refd, s0._forceFirstIDR);
    let seq = next_seq(t0.sequenceNumber);
    &&& r matches Some(seg)
    &&& seg._type == TrackType::Video
    &&& seg.sampleCount == b.len()
    &&& seg.data@ == spec_moof(seq, t0.id, ms, ms[0].dts) + box_bytes(
        fourcc('m', 'd', 'a', 't'),
        video_batch_bytes(b),
    )
    &&& info_is(seg.info, ms, video_sync_points(b, b.len() as int, base, corr, last_dts, refd))
    &&& seg.timestampOffset is None
    &&& s1._videoStashedLastSample == last
    &&& s1._videoNextDts == next_video_dts(ms.last().dts + ms.last().duration)
    &&& if s0._isLive {
        s1._videoSegmentInfoList == s0._videoSegmentInfoList
    } else {
        list_appended(s0._videoSegmentInfoList, s1._videoSegmentInfoList, seg.info)
    }
    &&& video_only_changed(s0, s1)
    &&& t1.samples@.len() == 0
    &&& t1.length == 0
    &&& t1.sequenceNumber == seq
}

/// The next video dts kept after a batch that ends at `end`: none past the bound.
pub open spec fn next_video_dts(end: int) -> Option<i64> {
    if within(end, NEXT_LIMIT()) {
        Some(end as i64)
    } else {
        None
    }
}

/// The audio clock rounded down to whole timescale units.
pub open spec fn clock_floor(c: Option<AudioClock>) -> Option<i64> {
    match c {
        Some(k) => Some((k.num as int / k.den as int) as i64),
        None => None,
    }
}

/// What remuxing an audio batch does: `t0` is the track handed in, `s0` the remuxer before.
pub open spec fn audio_remuxed(s0: MP4Remuxer, t0: AudioTrack, s1: MP4Remuxer, t1: AudioTrack, r: Option<MediaSegment>) -> bool {
    let (body, last) = take_last(t0.samples@);
    let b = with_stash(body, s0._audioStashedLastSample);
    let last_dts = match last {
        Some(l) => Some(l.dts),
        None => None,
    };
    let meta = s0._audioMeta->Some_0;
    let mp3 = is_mp3(meta.meta.codec@);
    let raw = mp3 && s0._mp3UseMpegAudio;
    let corr = spec_correction(b[0].dts - s0._dtsBase, clock_floor(s0._audioNextDts), s0._audioSegmentInfoList.segments());
    let p = audio_params(s0._dtsBase, corr as i64, last_dts, mp3, meta.refSampleDurationNum, meta.refSampleDurationDen);
    let run = audio_run(b, b.len() as int, p, s0._audioNextDts);
    let ms = audio_mp4s(run.outs, b);
    let kept = audio_kept_bytes(run.outs, b);
    let payload = kept + zeros(audio_total(b) - kept.len());
    let seq = next_seq(t0.sequenceNumber);
    &&& s1._audioStashedLastSample == last
    &&& s1._audioNextDts == run.next
    &&& audio_only_changed(s0, s1)
    &&& t1.samples@.len() == 0
    &&& t1.length == 0
    &&& if ms.len() == 0 {
        &&& r is None
        &&& t1.sequenceNumber == t0.sequenceNumber
        &&& s1._audioSegmentInfoList == s0._audioSegmentInfoList
    } else {
        &&& r matches Some(seg)
        &&& seg._type == TrackType::Audio
        &&& seg.sampleCount == ms.len()
        &&& seg.data@ == if raw {
            payload
        } else {
            spec_moof(seq, t0.id, ms, ms[0].dts) + box_bytes(fourcc('m', 'd', 'a', 't'), payload)
        }
        &&& info_is(seg.info, ms, Seq::empty())
        &&& seg.timestampOffset == if raw && s0._dtsBaseInited && s0._audioNextDts is None {
            Some(ms[0].dts)
        } else {
            None
        }
        &&& t1.sequenceNumber == seq
        &&& if s0._isLive {
            s1._audioSegmentInfoList == s0._audioSegmentInfoList
        } else {
            list_appended(s0._audioSegmentInfoList, s1._audioSegmentInfoList, seg.info)
        }
    }
}

/// The video samples the next fragment holds: the stashed sample, then all samples of the
/// track but its last.
pub open spec fn video_batch(s: MP4Remuxer, t: VideoTrack) -> Seq<VideoSample> {
    with_stash(take_last(t.samples@).0, s._videoStashedLastSample)
}

proof fn lemma_video_batch_bytes_concat(a: Seq<VideoSample>, b: Seq<VideoSample>)
    ensures
        video_batch_bytes(a + b) == video_batch_bytes(a) + video_batch_bytes(b),
{
    let f = |s: VideoSample| video_sample_bytes(s);
    assert((a + b).map_values(f) =~= a.map_values(f) + b.map_values(f));
    vstd::seq_lib::lemma_flatten_concat(a.map_values(f), b.map_values(f));
}

/// Video samples are neither lost nor repeated: when nothing was held back before a batch,
/// the `mdat` payloads of its fragment and of the next one carry the bytes of every sample
/// of the batch, then of all samples of the next batch but its last, in order.
#[verifier::spinoff_prover]
#[verifier::rlimit(40)]
pub proof fn lemma_video_samples_kept_in_order(
    s0: MP4Remuxer,
    t0: VideoTrack,
    s1: MP4Remuxer,
    t1: VideoTrack,
    seg1: MediaSegment,
    u0: VideoTrack,
)
    requires
        video_remuxed(s0, t0, s1, t1, Some(seg1)),
        s0._videoStashedLastSample is None,
    ensures
        video_batch_bytes(video_batch(s0, t0)) + video_batch_bytes(video_batch(s1, u0))
            == video_batch_bytes(t0.samples@ + take_last(u0.samples@).0),
{
    let a = t0.samples@;
    assert(s1._videoStashedLastSample == take_last(a).1);
    let rest = take_last(u0.samples@).0;
    let b1 = video_batch(s0, t0);
    let b2 = video_batch(s1, u0);
    if a.len() > 1 {
        assert(b1 == a.drop_last());
        assert(b2 == seq![a.last()] + rest);
        assert(a == a.drop_last() + seq![a.last()]);
        assert(a + rest =~= a.drop_last() + (seq![a.last()] + rest));
        lemma_video_batch_bytes_concat(a.drop_last(), seq![a.last()] + rest);
    } else {
        assert(b1 == a);
        assert(b2 == rest);
        lemma_video_batch_bytes_concat(a, rest);
    }
}

/// Video fragments follow each other without gap or overlap: when a batch is remuxed right
/// after another, its fragment begins at the dts where the previous one ended. The remuxer
/// carries that end while it lies within `NEXT_LIMIT` (2^59 - 2^42 timescale units, some 18
/// million years in milliseconds, where its 64-bit times run short); past it the timeline
/// starts over.
pub proof fn lemma_video_fragments_contiguous(
    s0: MP4Remuxer,
    t0: VideoTrack,
    s1: MP4Remuxer,
    t1: VideoTrack,
    seg1: MediaSegment,
    u0: VideoTrack,
    s2: MP4Remuxer,
    u1: VideoTrack,
    seg2: MediaSegment,
)
    requires
        video_remuxed(s0, t0, s1, t1, Some(seg1)),
        video_remuxed(s1, u0, s2, u1, Some(seg2)),
        s1.wf(),
        video_track_ok(&u0),
        video_batch(s0, t0).len() > 0,
        video_batch(s1, u0).len() > 0,
        within(seg1.info.endDts as int, NEXT_LIMIT()),
    ensures
        seg2.info.beginDts == seg1.info.endDts,
{
    let b2 = video_batch(s1, u0);
    assert(video_sample_ok(b2[0])) by {
        match s1._videoStashedLastSample {
            Some(st) => {},
            None => {
                assert(b2[0] == u0.samples@[0]);
            },
        }
    }
    let next = s1._videoNextDts->Some_0;
    assert(next == seg1.info.endDts);
    let base = s1._dtsBase as int;
    assert(spec_correction(b2[0].dts - base, s1._videoNextDts, s1._videoSegmentInfoList.segments())
        == b2[0].dts - base - next);
}

/// The remuxer with no sample stashed.
pub open spec fn stash_taken(s: MP4Remuxer) -> MP4Remuxer {
    MP4Remuxer { _videoStashedLastSample: None, _audioStashedLastSample: None, ..s }
}

/// `v` and `a` are the fresh tracks (ids 1 and 2) holding just the stashed samples.
pub open spec fn flushed_tracks(v: VideoTrack, a: AudioTrack, vs: Option<VideoSample>, as_: Option<AudioSample>) -> bool {
    &&& v.id == 1 && v.sequenceNumber == 0
    &&& v.samples@ == match vs {
        Some(x) => seq![x],
        None => Seq::<VideoSample>::empty(),
    }
    &&& v.length == match vs {
        Some(x) => x.length as int,
        None => 0,
    }
    &&& a.id == 2 && a.sequenceNumber == 0
    &&& a.samples@ == match as_ {
        Some(x) => seq![x],
        None => Seq::<AudioSample>::empty(),
    }
    &&& a.length == match as_ {
        Some(x) => x.length as int,
        None => 0,
    }
}

/// The remuxer after `_calculateDtsBase`: once, the dts base becomes the smaller of the
/// first audio and first video dts (the tracks without samples give none).
pub open spec fn dts_base_calculated(s: MP4Remuxer, a: AudioTrack, v: VideoTrack) -> MP4Remuxer {
    if s._dtsBaseInited {
        s
    } else {
        let ab = if a.samples@.len() > 0 { Some(a.samples@[0].dts) } else { s._audioDtsBase };
        let vb = if v.samples@.len() > 0 { Some(v.samples@[0].dts) } else { s._videoDtsBase };
        match (ab, vb) {
            (Some(x), Some(y)) => MP4Remuxer {
                _audioDtsBase: ab,
                _videoDtsBase: vb,
                _dtsBase: if x < y { x } else { y },
                _dtsBaseInited: true,
                ..s
            },
            (Some(x), None) => MP4Remuxer { _audioDtsBase: ab, _dtsBase: x, _dtsBaseInited: true, ..s },
            (None, Some(y)) => MP4Remuxer { _videoDtsBase: vb, _dtsBase: y, _dtsBaseInited: true, ..s },
            (None, None) => s,
        }
    }
}

/// `_remuxVideo` from `s0` and `t0` gives `s1`, `t1` and `r`.
pub open spec fn video_remux_step(s0: MP4Remuxer, t0: VideoTrack, force: bool, s1: MP4Remuxer, t1: VideoTrack, r: Option<MediaSegment>) -> bool {
    let n0 = t0.samples@.len();
    if s0._videoMeta is None || n0 == 0 || (n0 == 1 && !force) {
        r is None && s1 == s0 && t1 == t0
    } else {
        video_remuxed(s0, t0, s1, t1, r)
    }
}

/// `_remuxAudio` from `s0` and `t0` gives `s1`, `t1` and `r`.
pub open spec fn audio_remux_step(s0: MP4Remuxer, t0: AudioTrack, force: bool, s1: MP4Remuxer, t1: AudioTrack, r: Option<MediaSegment>) -> bool {
    let n0 = t0.samples@.len();
    if s0._audioMeta is None || n0 == 0 || (n0 == 1 && !force) {
        r is None && s1 == s0 && t1 == t0
    } else {
        audio_remuxed(s0, t0, s1, t1, r)
    }
}

/// The init segment announced for a track's metadata.
pub open spec fn init_segment_is(seg: InitSegment, meta: crate::mp4_generator::Meta, raw_mpeg: bool) -> bool {
    &&& seg.mediaDuration == meta.duration
    &&& seg._type == meta._type
    &&& if raw_mpeg {
        &&& seg.data@.len() == 0
        &&& seg.codec@.len() == 0
        &&& seg.container@ == seq!['a', 'u', 'd', 'i', 'o', '/', 'm', 'p', 'e', 'g']
    } else {
        &&& seg.data@ == spec_init_segment(&meta)
        &&& seg.codec@ == meta.codec@
        &&& seg.container@ == if meta._type == TrackType::Audio {
            seq!['a', 'u', 'd', 'i', 'o', '/', 'm', 'p', '4']
        } else {
            seq!['v', 'i', 'd', 'e', 'o', '/', 'm', 'p', '4']
        }
    }
}

impl MP4Remuxer {
    /// Bounds the remuxer keeps on what it carries from batch to batch.
    pub open spec fn wf(&self) -> bool {
        &&& self._audioSegmentInfoList.wf()
        &&& self._videoSegmentInfoList.wf()
        &&& segs_kept(self._audioSegmentInfoList.segments())
        &&& segs_kept(self._videoSegmentInfoList.segments())
        &&& within(self._dtsBase as int, TIME_LIMIT())
        &&& match self._audioDtsBase {
            Some(d) => within(d as int, TIME_LIMIT()),
            None => true,
        }
        &&& match self._videoDtsBase {
            Some(d) => within(d as int, TIME_LIMIT()),
            None => true,
        }
        &&& match self._videoNextDts {
            Some(n) => within(n as int, NEXT_LIMIT()),
            None => true,
        }
        &&& match self._audioNextDts {
            Some(c) => clock_ok(c),
            None => true,
        }
        &&& match self._videoStashedLastSample {
            Some(s) => video_sample_ok(s),
            None => true,
        }
        &&& match self._audioStashedLastSample {
            Some(s) => audio_sample_ok(s),
            None => true,
        }
        &&& match self._videoMeta {
            Some(m) => m.refSampleDuration <= REF_LIMIT(),
            None => true,
        }
        &&& match self._audioMeta {
            Some(m) => audio_meta_ok(m),
            None => true,
        }
    }

    /// Remuxes the video samples of `track` into one media segment. A lone sample waits
    /// for the next batch unless `force`; otherwise the last sample is kept back, so that
    /// the duration of every sample written is known.
    #[verifier::spinoff_prover]
    pub fn _remuxVideo(&mut self, track: &mut VideoTrack, force: bool) -> (r: Option<MediaSegment>)
        requires
            old(self).wf(),
            video_track_ok(old(track)),
        ensures
            final(self).wf(),
            video_track_ok(final(track)),
            final(track).id == old(track).id,
            ({
                let n0 = old(track).samples@.len();
                if old(self)._videoMeta is None || n0 == 0 || (n0 == 1 && !force) {
                    &&& r is None
                    &&& *final(self) == *old(self)
                    &&& *final(track) == *old(track)
                } else {
                    video_remuxed(*old(self), *old(track), *final(self), *final(track), r)
                }
            }),
            old(self)._videoNextDts is Some && r is Some ==> r->Some_0.info.beginDts == old(self)._videoNextDts->Some_0,
    {
        if self._videoMeta.is_none() {
            return None;
        }
        let n0 = track.samples.len();
        if n0 == 0 || (n0 == 1 && !force) {
            return None;
        }
        let ghost s0 = *self;
        let ghost t0 = *track;
        let refd: i64 = match &self._videoMeta {
            Some(m) => m.refSampleDuration as i64,
            None => 0,
        };
        let (batch, lastDts) = self.take_video_batch(track);
        let ghost b = batch@;
        let n = batch.len();
        let base = self._dtsBase;
        let fo = batch[0].dts - base;
        let corr = correction(fo, self._videoNextDts, &self._videoSegmentInfoList);
        let force_first = self._forceFirstIDR;
        let (ms, sync, payload) = video_samples_of(&batch, base, corr, lastDts, refd, force_first);
        let mdatbox = mdat(payload.as_slice());
        let info = segment_info_of(&ms, sync);
        proof {
            if s0._videoNextDts is Some {
                let e = s0._videoNextDts->Some_0;
                assert(video_sample_ok(b[0]));
                assert(corr == fo - e);
                assert(info.beginDts == e);
            }
        }
        let first = ms[0];
        let latest = ms[n - 1];
        let endDts = latest.dts + latest.duration;
        self._videoNextDts = if -0x7ff_fc00_0000_0000i64 <= endDts && endDts <= 0x7ff_fc00_0000_0000i64 {
            Some(endDts)
        } else {
            None
        };
        if !self._isLive {
            record_segment(&mut self._videoSegmentInfoList, &info);
        }
        let seq = next_sequence_number(track.sequenceNumber);
        let fragment = FragmentTrack { id: track.id, sequenceNumber: seq, samples: ms };
        let moofbox = moof(&fragment, first.dts);
        track.length = 0;
        track.sequenceNumber = seq;
        let data = self._mergeBoxes(moofbox, mdatbox);
        Some(MediaSegment { _type: TrackType::Video, data, sampleCount: n, info, timestampOffset: None })
    }

    /// Takes the samples out of `track`, keeps its last one back (when there are several),
    /// and puts the one kept back from the previous batch in front.
    fn take_video_batch(&mut self, track: &mut VideoTrack) -> (r: (Vec<VideoSample>, Option<i64>))
        requires
            old(self).wf(),
            video_track_ok(old(track)),
            old(track).samples@.len() >= 1,
        ensures
            ({
                let (body, last) = take_last(old(track).samples@);
                &&& r.0@ == with_stash(body, old(self)._videoStashedLastSample)
                &&& r.1 == match last {
                    Some(l) => Some(l.dts),
                    None => None::<i64>,
                }
                &&& *final(self) == MP4Remuxer { _videoStashedLastSample: last, ..*old(self) }
            }),
            final(self).wf(),
            final(track).samples@.len() == 0,
            final(track).id == old(track).id,
            final(track).sequenceNumber == old(track).sequenceNumber,
            1 <= r.0@.len() <= TRACK_LIMIT() + 1,
            forall|k: int| 0 <= k < r.0@.len() ==> video_sample_ok(#[trigger] r.0@[k]),
            video_total(r.0@) <= 2 * TRACK_LIMIT(),
            match r.1 {
                Some(ld) => within(ld as int, TIME_LIMIT()),
                None => true,
            },
    {
        let ghost s0 = *self;
        let ghost t0 = *track;
        let mut samples: Vec<VideoSample> = Vec::new();
        std::mem::swap(&mut samples, &mut track.samples);
        let last: Option<VideoSample> = if samples.len() > 1 {
            samples.pop()
        } else {
            None
        };
        let lastDts: Option<i64> = match &last {
            Some(l) => Some(l.dts),
            None => None,
        };
        let ghost body = samples@;
        proof {
            let (tb, tl) = take_last(t0.samples@);
            if t0.samples@.len() > 1 {
                assert(t0.samples@.drop_last() =~= body);
                assert(video_sample_ok(t0.samples@[t0.samples@.len() - 1]));
            }
            assert(body == tb);
            assert(last == tl);
            assert(video_total(body) <= TRACK_LIMIT());
        }
        let stashed = self._videoStashedLastSample.take();
        match stashed {
            Some(st) => {
                proof {
                    lemma_video_total_prepend(st, samples@);
                    assert(samples@.insert(0, st) =~= seq![st] + samples@);
                }
                samples.insert(0, st);
            },
            None => {},
        }
        self._videoStashedLastSample = last;
        proof {
            let b = samples@;
            assert forall|k: int| 0 <= k < b.len() implies video_sample_ok(#[trigger] b[k]) by {
                match s0._videoStashedLastSample {
                    Some(st) => {
                        if k > 0 {
                            assert(b[k] == body[k - 1]);
                            assert(body[k - 1] == t0.samples@[k - 1]);
                        }
                    },
                    None => {
                        assert(b[k] == t0.samples@[k]);
                    },
                }
            }
        }
        (samples, lastDts)
    }

    /// Remuxes the audio samples of `track` into one media segment. A lone sample waits
    /// for the next batch unless `force`; otherwise the last sample is kept back. MP3 goes
    /// out as raw MPEG audio when the remuxer was made so.
    pub fn _remuxAudio(&mut self, track: &mut AudioTrack, force: bool) -> (r: Option<MediaSegment>)
        requires
            old(self).wf(),
            audio_track_ok(old(track)),
        ensures
            final(self).wf(),
            audio_track_ok(final(track)),
            final(track).id == old(track).id,
            ({
                let n0 = old(track).samples@.len();
                if old(self)._audioMeta is None || n0 == 0 || (n0 == 1 && !force) {
                    &&& r is None
                    &&& *final(self) == *old(self)
                    &&& *final(track) == *old(track)
                } else {
                    audio_remuxed(*old(self), *old(track), *final(self), *final(track), r)
                }
            }),
    {
        if self._audioMeta.is_none() {
            return None;
        }
        let n0 = track.samples.len();
        if n0 == 0 || (n0 == 1 && !force) {
            return None;
        }
        let (mp3, refNum, refDen) = match &self._audioMeta {
            Some(m) => (codec_is_mp3(&m.meta.codec), m.refSampleDurationNum, m.refSampleDurationDen),
            None => (false, 0, 1),
        };
        let raw = mp3 && self._mp3UseMpegAudio;
        let firstSegmentAfterSeek = self._dtsBaseInited && self._audioNextDts.is_none();
        let (batch, lastDts) = self.take_audio_batch(track);
        let base = self._dtsBase;
        let fo = batch[0].dts - base;
        let nextInt: Option<i64> = match self._audioNextDts {
            Some(c) => {
                let q = floor_div(c.num, c.den as i128);
                proof {
                    let cn = c.num as int;
                    let cd = c.den as int;
                    let qi = q as int;
                    assert(-0x1000_0000_0000_0000 <= qi <= 0x1000_0000_0000_0000) by (nonlinear_arith)
                        requires qi == cn / cd, -0x1000_0000_0000_0000 * cd <= cn <= 0x1000_0000_0000_0000 * cd, 1 <= cd;
                }
                Some(q as i64)
            },
            None => None,
        };
        let corr = correction(fo, nextInt, &self._audioSegmentInfoList);
        let (ms, kept, next) = audio_samples_of(&batch, base, corr, lastDts, mp3, refNum, refDen, self._audioNextDts);
        self._audioNextDts = next;
        if ms.len() == 0 {
            track.length = 0;
            return None;
        }
        // bytes of dropped samples stay allocated, as zeros at the end
        let total = audio_batch_len(&batch);
        let mut payload = kept;
        let ghost kept_view = payload@;
        while payload.len() < total
            invariant
                kept_view.len() <= payload@.len() <= total,
                payload@ == kept_view + zeros(payload@.len() - kept_view.len()),
            decreases total - payload@.len(),
        {
            payload.push(0);
            assert(payload@ =~= kept_view + zeros(payload@.len() - kept_view.len()));
        }
        let mdatbox = if raw {
            payload
        } else {
            mdat(payload.as_slice())
        };
        let n = ms.len();
        let info = segment_info_of(&ms, Vec::new());
        let first = ms[0];
        if !self._isLive {
            record_segment(&mut self._audioSegmentInfoList, &info);
        }
        let seq = next_sequence_number(track.sequenceNumber);
        let moofbox = if raw {
            Vec::new()
        } else {
            let fragment = FragmentTrack { id: track.id, sequenceNumber: seq, samples: ms };
            moof(&fragment, first.dts)
        };
        track.length = 0;
        track.sequenceNumber = seq;
        let data = self._mergeBoxes(moofbox, mdatbox);
        let timestampOffset = if raw && firstSegmentAfterSeek {
            Some(first.dts)
        } else {
            None
        };
        Some(MediaSegment { _type: TrackType::Audio, data, sampleCount: n, info, timestampOffset })
    }

    /// Takes the samples out of `track`, keeps its last one back (when there are several),
    /// and puts the one kept back from the previous batch in front.
    fn take_audio_batch(&mut self, track: &mut AudioTrack) -> (r: (Vec<AudioSample>, Option<i64>))
        requires
            old(self).wf(),
            audio_track_ok(old(track)),
            old(track).samples@.len() >= 1,
        ensures
            ({
                let (body, last) = take_last(old(track).samples@);
                &&& r.0@ == with_stash(body, old(self)._audioStashedLastSample)
                &&& r.1 == match last {
                    Some(l) => Some(l.dts),
                    None => None::<i64>,
                }
                &&& *final(self) == MP4Remuxer { _audioStashedLastSample: last, ..*old(self) }
            }),
            final(self).wf(),
            final(track).samples@.len() == 0,
            final(track).id == old(track).id,
            final(track).sequenceNumber == old(track).sequenceNumber,
            1 <= r.0@.len() <= TRACK_LIMIT() + 1,
            forall|k: int| 0 <= k < r.0@.len() ==> audio_sample_ok(#[trigger] r.0@[k]),
            audio_total(r.0@) <= 2 * TRACK_LIMIT(),
            match r.1 {
                Some(ld) => within(ld as int, TIME_LIMIT()),
                None => true,
            },
    {
        let ghost s0 = *self;
        let ghost t0 = *track;
        let mut samples: Vec<AudioSample> = Vec::new();
        std::mem::swap(&mut samples, &mut track.samples);
        let last: Option<AudioSample> = if samples.len() > 1 {
            samples.pop()
        } else {
            None
        };
        let lastDts: Option<i64> = match &last {
            Some(l) => Some(l.dts),
            None => None,
        };
        let ghost body = samples@;
        proof {
            let (tb, tl) = take_last(t0.samples@);
            if t0.samples@.len() > 1 {
                assert(t0.samples@.drop_last() =~= body);
                assert(audio_sample_ok(t0.samples@[t0.samples@.len() - 1]));
            }
            assert(body == tb);
            assert(last == tl);
            assert(audio_total(body) <= TRACK_LIMIT());
        }
        let stashed = self._audioStashedLastSample.take();
        match stashed {
            Some(st) => {
                proof {
                    lemma_audio_total_prepend(st, samples@);
                    assert(samples@.insert(0, st) =~= seq![st] + samples@);
                }
                samples.insert(0, st);
            },
            None => {},
        }
        self._audioStashedLastSample = last;
        proof {
            let b = samples@;
            assert forall|k: int| 0 <= k < b.len() implies audio_sample_ok(#[trigger] b[k]) by {
                match s0._audioStashedLastSample {
                    Some(st) => {
                        if k > 0 {
                            assert(b[k] == body[k - 1]);
                            assert(body[k - 1] == t0.samples@[k - 1]);
                        }
                    },
                    None => {
                        assert(b[k] == t0.samples@[k]);
                    },
                }
            }
        }
        (samples, lastDts)
    }

    /// A remuxer with no metadata and no timeline yet. `isLive` keeps no segment records;
    /// `mp3UseMpegAudio` sends MP3 as raw `audio/mpeg`; `forceFirstIDR` marks the first
    /// sample of each video segment as a random access point.
    pub fn new(isLive: bool, mp3UseMpegAudio: bool, forceFirstIDR: bool) -> (r: MP4Remuxer)
        ensures
            r.wf(),
            r._isLive == isLive,
            r._mp3UseMpegAudio == mp3UseMpegAudio,
            r._forceFirstIDR == forceFirstIDR,
            r._dtsBase == 0,
            !r._dtsBaseInited,
            r._audioDtsBase is None && r._videoDtsBase is None,
            r._audioNextDts is None && r._videoNextDts is None,
            r._audioStashedLastSample is None && r._videoStashedLastSample is None,
            r._audioMeta is None && r._videoMeta is None,
            r._audioSegmentInfoList.segments().len() == 0,
            r._videoSegmentInfoList.segments().len() == 0,
            r._audioSegmentInfoList.track_type() == "audio"@,
            r._videoSegmentInfoList.track_type() == "video"@,
    {
        MP4Remuxer {
            _isLive: isLive,
            _mp3UseMpegAudio: mp3UseMpegAudio,
            _forceFirstIDR: forceFirstIDR,
            _dtsBase: 0,
            _dtsBaseInited: false,
            _audioDtsBase: None,
            _videoDtsBase: None,
            _audioNextDts: None,
            _videoNextDts: None,
            _audioStashedLastSample: None,
            _videoStashedLastSample: None,
            _audioMeta: None,
            _videoMeta: None,
            _audioSegmentInfoList: MediaSegmentInfoList::new("audio"),
            _videoSegmentInfoList: MediaSegmentInfoList::new("video"),
        }
    }

    /// Forgets the timeline, the metadata and the segment records.
    pub fn destroy(&mut self)
        requires
            old(self).wf(),
        ensures
            final(self).wf(),
            *final(self) == (MP4Remuxer {
                _dtsBase: 0,
                _dtsBaseInited: false,
                _audioMeta: None,
                _videoMeta: None,
                _audioSegmentInfoList: final(self)._audioSegmentInfoList,
                _videoSegmentInfoList: final(self)._videoSegmentInfoList,
                ..*old(self)
            }),
            final(self)._audioSegmentInfoList.segments().len() == 0,
            final(self)._videoSegmentInfoList.segments().len() == 0,
            final(self)._audioSegmentInfoList.track_type() == old(self)._audioSegmentInfoList.track_type(),
            final(self)._videoSegmentInfoList.track_type() == old(self)._videoSegmentInfoList.track_type(),
    {
        self._dtsBase = 0;
        self._dtsBaseInited = false;
        self._audioMeta = None;
        self._videoMeta = None;
        self._audioSegmentInfoList.clear();
        self._videoSegmentInfoList.clear();
    }

    /// The next batch starts a new timeline position for both tracks.
    pub fn insertDiscontinuity(&mut self)
        ensures
            *final(self) == (MP4Remuxer { _audioNextDts: None, _videoNextDts: None, ..*old(self) }),
    {
        self._audioNextDts = None;
        self._videoNextDts = None;
    }

    /// Drops the samples kept back and the segment records.
    pub fn seek(&mut self, originalDts: i64)
        requires
            old(self).wf(),
        ensures
            final(self).wf(),
            *final(self) == (MP4Remuxer {
                _audioStashedLastSample: None,
                _videoStashedLastSample: None,
                _audioSegmentInfoList: final(self)._audioSegmentInfoList,
                _videoSegmentInfoList: final(self)._videoSegmentInfoList,
                ..*old(self)
            }),
            final(self)._audioSegmentInfoList.segments().len() == 0,
            final(self)._videoSegmentInfoList.segments().len() == 0,
            final(self)._audioSegmentInfoList.track_type() == old(self)._audioSegmentInfoList.track_type(),
            final(self)._videoSegmentInfoList.track_type() == old(self)._videoSegmentInfoList.track_type(),
    {
        self._audioStashedLastSample = None;
        self._videoStashedLastSample = None;
        self._videoSegmentInfoList.clear();
        self._audioSegmentInfoList.clear();
    }

    /// Fixes the dts base, once, from the first samples of the tracks.
    pub fn _calculateDtsBase(&mut self, audioTrack: &AudioTrack, videoTrack: &VideoTrack)
        requires
            old(self).wf(),
            audio_track_ok(audioTrack),
            video_track_ok(videoTrack),
        ensures
            final(self).wf(),
            *final(self) == dts_base_calculated(*old(self), *audioTrack, *videoTrack),
    {
        if self._dtsBaseInited {
            return;
        }
        if audioTrack.samples.len() > 0 {
            self._audioDtsBase = Some(audioTrack.samples[0].dts);
        }
        if videoTrack.samples.len() > 0 {
            self._videoDtsBase = Some(videoTrack.samples[0].dts);
        }
        match (self._audioDtsBase, self._videoDtsBase) {
            (Some(x), Some(y)) => {
                self._dtsBase = if x < y { x } else { y };
                self._dtsBaseInited = true;
            },
            (Some(x), None) => {
                self._dtsBase = x;
                self._dtsBaseInited = true;
            },
            (None, Some(y)) => {
                self._dtsBase = y;
                self._dtsBaseInited = true;
            },
            (None, None) => {},
        }
    }

    /// Remuxes what the tracks hold: first video, then audio.
    pub fn remux(&mut self, audioTrack: &mut AudioTrack, videoTrack: &mut VideoTrack) -> (r: (Option<MediaSegment>, Option<MediaSegment>))
        requires
            old(self).wf(),
            audio_track_ok(old(audioTrack)),
            video_track_ok(old(videoTrack)),
        ensures
            final(self).wf(),
            audio_track_ok(final(audioTrack)),
            video_track_ok(final(videoTrack)),
            final(audioTrack).id == old(audioTrack).id,
            final(videoTrack).id == old(videoTrack).id,
            exists|s2: MP4Remuxer| {
                &&& video_remux_step(
                    dts_base_calculated(*old(self), *old(audioTrack), *old(videoTrack)),
                    *old(videoTrack),
                    false,
                    s2,
                    *final(videoTrack),
                    r.1,
                )
                &&& audio_remux_step(s2, *old(audioTrack), false, *final(self), *final(audioTrack), r.0)
            },
    {
        if !self._dtsBaseInited {
            self._calculateDtsBase(audioTrack, videoTrack);
        }
        let ghost s1 = *self;
        assert(s1 == dts_base_calculated(*old(self), *old(audioTrack), *old(videoTrack)));
        let v = self._remuxVideo(videoTrack, false);
        let ghost s2 = *self;
        let a = self._remuxAudio(audioTrack, false);
        assert(video_remux_step(s1, *old(videoTrack), false, s2, *videoTrack, v));
        assert(audio_remux_step(s2, *old(audioTrack), false, *self, *audioTrack, a));
        let r = (a, v);
        assert(video_remux_step(dts_base_calculated(*old(self), *old(audioTrack), *old(videoTrack)), *old(videoTrack), false, s2, *videoTrack, r.1)
            && audio_remux_step(s2, *old(audioTrack), false, *self, *audioTrack, r.0));
        r
    }

    /// Remuxes the samples kept back, each track on its own, as the end of the stream.
    pub fn flushStashedSamples(&mut self) -> (r: (Option<MediaSegment>, Option<MediaSegment>))
        requires
            old(self).wf(),
        ensures
            final(self).wf(),
            final(self)._audioStashedLastSample is None,
            final(self)._videoStashedLastSample is None,
            (old(self)._videoStashedLastSample is None || old(self)._videoMeta is None) ==> r.1 is None,
            (old(self)._audioStashedLastSample is None || old(self)._audioMeta is None) ==> r.0 is None,
            exists|s2: MP4Remuxer, v0: VideoTrack, v1: VideoTrack, a0: AudioTrack, a1: AudioTrack| {
                &&& flushed_tracks(v0, a0, old(self)._videoStashedLastSample, old(self)._audioStashedLastSample)
                &&& #[trigger] video_remux_step(
                    stash_taken(*old(self)),
                    v0,
                    true,
                    s2,
                    v1,
                    r.1,
                )
                &&& #[trigger] audio_remux_step(s2, a0, true, *final(self), a1, r.0)
            },
    {
        let videoSample = self._videoStashedLastSample.take();
        let audioSample = self._audioStashedLastSample.take();
        let mut videoTrack = VideoTrack::new(1);
        match videoSample {
            Some(s) => {
                videoTrack.push_sample(s);
                assert(videoTrack.samples@ =~= seq![s]);
            },
            None => {
                assert(videoTrack.samples@ =~= Seq::<VideoSample>::empty());
            },
        }
        let mut audioTrack = AudioTrack::new(2);
        match audioSample {
            Some(s) => {
                audioTrack.push_sample(s);
                assert(audioTrack.samples@ =~= seq![s]);
            },
            None => {
                assert(audioTrack.samples@ =~= Seq::<AudioSample>::empty());
            },
        }
        let ghost s1 = *self;
        assert(s1 == stash_taken(*old(self)));
        let ghost v0 = videoTrack;
        let ghost a0 = audioTrack;
        assert(flushed_tracks(v0, a0, old(self)._videoStashedLastSample, old(self)._audioStashedLastSample));
        let v = self._remuxVideo(&mut videoTrack, true);
        let ghost s2 = *self;
        let a = self._remuxAudio(&mut audioTrack, true);
        assert(video_remux_step(s1, v0, true, s2, videoTrack, v));
        assert(audio_remux_step(s2, a0, true, *self, audioTrack, a));
        (a, v)
    }

    /// Takes a track's metadata and gives its init segment (an empty one for MP3 sent as
    /// raw MPEG audio).
    pub fn _onTrackMetadataReceived(&mut self, metadata: TrackMetaData) -> (r: InitSegment)
        requires
            old(self).wf(),
            match metadata {
                TrackMetaData::Audio(m) => audio_meta_ok(m) && crate::mp4_generator::meta_fits(&m.meta)
                    && m.meta._type == TrackType::Audio,
                TrackMetaData::Video(m) => m.refSampleDuration <= REF_LIMIT() && crate::mp4_generator::meta_fits(&m.meta)
                    && m.meta._type == TrackType::Video,
            },
        ensures
            final(self).wf(),
            final(self)._mp3UseMpegAudio == old(self)._mp3UseMpegAudio,
            final(self)._isLive == old(self)._isLive,
            metadata is Audio ==> *final(self) == (MP4Remuxer { _audioMeta: Some(metadata->Audio_0), ..*old(self) }),
            metadata is Audio ==> final(self)._audioMeta == Some(metadata->Audio_0),
            metadata is Audio ==> final(self)._videoMeta == old(self)._videoMeta,
            metadata is Audio ==> init_segment_is(r, metadata->Audio_0.meta, is_mp3(metadata->Audio_0.meta.codec@) && old(self)._mp3UseMpegAudio),
            metadata is Video ==> *final(self) == (MP4Remuxer { _videoMeta: Some(metadata->Video_0), ..*old(self) }),
            metadata is Video ==> final(self)._videoMeta == Some(metadata->Video_0),
            metadata is Video ==> final(self)._audioMeta == old(self)._audioMeta,
            metadata is Video ==> init_segment_is(r, metadata->Video_0.meta, false),
    {
        match metadata {
            TrackMetaData::Audio(m) => {
                let raw = codec_is_mp3(&m.meta.codec) && self._mp3UseMpegAudio;
                let seg = if raw {
                    let container = String::from_str("audio/mpeg");
                    let codec = String::from_str("");
                    proof {
                        reveal_strlit("audio/mpeg");
                        reveal_strlit("");
                    }
                    InitSegment { _type: TrackType::Audio, data: Vec::new(), codec, container, mediaDuration: m.meta.duration }
                } else {
                    let container = String::from_str("audio/mp4");
                    proof {
                        reveal_strlit("audio/mp4");
                    }
                    InitSegment {
                        _type: TrackType::Audio,
                        data: crate::mp4_generator::generateInitSegment(&m.meta),
                        codec: m.meta.codec.clone(),
                        container,
                        mediaDuration: m.meta.duration,
                    }
                };
                proof {
                    if raw {
                        assert(seg.container@ =~= seq!['a', 'u', 'd', 'i', 'o', '/', 'm', 'p', 'e', 'g']);
                        assert(seg.codec@.len() == 0);
                    } else {
                        assert(seg.container@ =~= seq!['a', 'u', 'd', 'i', 'o', '/', 'm', 'p', '4']);
                        assert(seg.codec@ == m.meta.codec@);
                    }
                    assert(seg.mediaDuration == m.meta.duration);
                    assert(seg._type == m.meta._type);
                    assert(init_segment_is(seg, m.meta, raw));
                }
                self._audioMeta = Some(m);
                seg
            },
            TrackMetaData::Video(m) => {
                let container = String::from_str("video/mp4");
                proof {
                    reveal_strlit("video/mp4");
                }
                let seg = InitSegment {
                    _type: TrackType::Video,
                    data: crate::mp4_generator::generateInitSegment(&m.meta),
                    codec: m.meta.codec.clone(),
                    container,
                    mediaDuration: m.meta.duration,
                };
                proof {
                    assert(seg.container@ =~= seq!['v', 'i', 'd', 'e', 'o', '/', 'm', 'p', '4']);
                    assert(init_segment_is(seg, m.meta, false));
                }
                self._videoMeta = Some(m);
                seg
            },
        }
    }

    /// `moof` followed by `mdat`.
    pub fn _mergeBoxes(&self, moof: Vec<u8>, mdat: Vec<u8>) -> (r: Vec<u8>)
        ensures
            r@ == moof@ + mdat@,
    {
        let mut result = moof;
        push_all(&mut result, mdat.as_slice());
        result
    }
}

/// The fragment samples, random access points and `mdat` payload of a video batch.
fn video_samples_of(
    batch: &Vec<VideoSample>,
    base: i64,
    corr: i64,
    lastDts: Option<i64>,
    refd: i64,
    force_first: bool,
) -> (r: (Vec<Mp4Sample>, Vec<SampleInfo>, Vec<u8>))
    requires
        1 <= batch@.len() <= TRACK_LIMIT() + 1,
        forall|k: int| 0 <= k < batch@.len() ==> video_sample_ok(#[trigger] batch@[k]),
        video_total(batch@) <= 2 * TRACK_LIMIT(),
        within(base as int, TIME_LIMIT()),
        within(corr as int, CORRECTION_LIMIT()),
        match lastDts {
            Some(ld) => within(ld as int, TIME_LIMIT()),
            None => true,
        },
        0 <= refd <= REF_LIMIT(),
    ensures
        r.0@ == video_outs(batch@, base as int, corr as int, lastDts, refd as int, force_first),
        r.1@ == video_sync_points(batch@, batch@.len() as int, base as int, corr as int, lastDts, refd as int),
        r.2@ == video_batch_bytes(batch@),
        r.2@.len() == video_total(batch@),
        forall|k: int| 0 <= k < r.0@.len() ==> mp4_sample_bounded(#[trigger] r.0@[k]),
{
    let n = batch.len();
    let ghost b = batch@;
    let ghost outs = video_outs(b, base as int, corr as int, lastDts, refd as int, force_first);
    let mut ms: Vec<Mp4Sample> = Vec::new();
    let mut sync: Vec<SampleInfo> = Vec::new();
    let mut payload: Vec<u8> = Vec::new();
    let mut i: usize = 0;
    while i < n
        invariant
            n == b.len(),
            b == batch@,
            1 <= n <= TRACK_LIMIT() + 1,
            i <= n,
            forall|k: int| 0 <= k < n ==> video_sample_ok(#[trigger] b[k]),
            within(base as int, TIME_LIMIT()),
            within(corr as int, CORRECTION_LIMIT()),
            match lastDts {
                Some(ld) => within(ld as int, TIME_LIMIT()),
                None => true,
            },
            0 <= refd <= REF_LIMIT(),
            outs == video_outs(b, base as int, corr as int, lastDts, refd as int, force_first),
            ms@ == outs.take(i as int),
            forall|k: int| 0 <= k < ms@.len() ==> mp4_sample_bounded(#[trigger] ms@[k]),
            sync@ == video_sync_points(b, i as int, base as int, corr as int, lastDts, refd as int),
            payload@ == video_batch_bytes(b.take(i as int)),
        decreases n - i,
    {
        let s = &batch[i];
        let dts = s.dts - base - corr;
        let dur: i64 = if i + 1 < n {
            batch[i + 1].dts - s.dts
        } else {
            match lastDts {
                Some(ld) => ld - s.dts,
                None => if i >= 1 {
                    s.dts - batch[i - 1].dts
                } else {
                    refd
                },
            }
        };
        let pts = dts + s.cts;
        let key = s.isKeyframe;
        let forced = force_first && i == 0;
        let flags = SampleFlags {
            isLeading: 0,
            dependsOn: if key || forced { 2 } else { 1 },
            isDependedOn: if key { 1 } else { 0 },
            hasRedundancy: 0,
            isNonSync: if key || forced { 0 } else { 1 },
        };
        if key {
            sync.push(
                SampleInfo {
                    dts,
                    pts,
                    duration: dur,
                    originalDts: s.dts,
                    isSyncPoint: true,
                    fileposition: s.fileposition,
                },
            );
        }
        ms.push(
            Mp4Sample {
                dts,
                pts,
                cts: s.cts,
                duration: dur,
                size: s.length,
                originalDts: s.dts - base,
                isKeyframe: key,
                flags,
            },
        );
        proof {
            lemma_video_batch_bytes_take(b, i as int);
        }
        push_units(&mut payload, &s.units);
        i = i + 1;
        proof {
            assert(ms@ =~= outs.take(i as int));
        }
    }
    proof {
        assert(outs.take(n as int) =~= outs);
        assert(b.take(n as int) =~= b);
        lemma_video_batch_bytes(b);
    }
    (ms, sync, payload)
}

/// Bounds on the times of a fragment sample.
pub open spec fn mp4_sample_bounded(m: Mp4Sample) -> bool {
    &&& within(m.dts as int, 0x1000_0000_0000_0000)
    &&& within(m.pts as int, 0x1000_0000_0000_0000)
    &&& within(m.duration as int, 0x4000_0000_0000)
    &&& within(m.originalDts as int, 0x1000_0000_0000_0000)
}

/// The record of a segment holding `ms`.
fn segment_info_of(ms: &Vec<Mp4Sample>, sync: Vec<SampleInfo>) -> (info: MediaSegmentInfo)
    requires
        ms@.len() >= 1,
        forall|k: int| 0 <= k < ms@.len() ==> mp4_sample_bounded(#[trigger] ms@[k]),
    ensures
        info_is(info, ms@, sync@),
        seg_kept(info),
{
    let first = ms[0];
    let latest = ms[ms.len() - 1];
    assert(mp4_sample_bounded(ms@[ms@.len() - 1]));
    MediaSegmentInfo {
        beginDts: first.dts,
        endDts: latest.dts + latest.duration,
        beginPts: first.pts,
        endPts: latest.pts + latest.duration,
        originalBeginDts: first.originalDts,
        originalEndDts: latest.originalDts + latest.duration,
        syncPoints: sync,
        firstSample: Some(
            SampleInfo {
                dts: first.dts,
                pts: first.pts,
                duration: first.duration,
                originalDts: first.originalDts,
                isSyncPoint: first.isKeyframe,
                fileposition: None,
            },
        ),
        lastSample: Some(
            SampleInfo {
                dts: latest.dts,
                pts: latest.pts,
                duration: latest.duration,
                originalDts: latest.originalDts,
                isSyncPoint: latest.isKeyframe,
                fileposition: None,
            },
        ),
    }
}

/// Records a segment in a track's list.
fn record_segment(list: &mut MediaSegmentInfoList, info: &MediaSegmentInfo)
    requires
        old(list).wf(),
        segs_kept(old(list).segments()),
        seg_kept(*info),
    ensures
        final(list).wf(),
        segs_kept(final(list).segments()),
        list_appended(*old(list), *final(list), *info),
{
    if list.length() < (isize::MAX - 2) as usize {
        let copy = info.copy();
        list.append(copy);
        proof {
            let idx = final(list).last_append();
            assert(final(list).segments()[idx].same_as(info));
            assert(final(list).segments().take(idx) =~= old(list).segments().take(idx));
            assert(final(list).segments().skip(idx + 1) =~= old(list).segments().skip(idx));
            assert forall|j: int| 0 <= j < final(list).segments().len() implies seg_kept(#[trigger] final(list).segments()[j]) by {
                if j < idx {
                    assert(final(list).segments()[j] == old(list).segments()[j]);
                } else if j > idx {
                    assert(final(list).segments()[j] == old(list).segments()[j - 1]);
                }
            }
        }
    }
}

// ---------------------------------------------------------------- audio samples

/// `a / d` rounded down.
fn floor_div(a: i128, d: i128) -> (r: i128)
    requires
        0 < d <= 0x1_0000_0000_0000_0000,
        within(a as int, 0x1000_0000_0000_0000_0000_0000_0000_0000),
    ensures
        r == a / d,
{
    if a >= 0 {
        a / d
    } else {
        let q = (-a + d - 1) / d;
        proof {
            let ai = a as int;
            let di = d as int;
            let qi = q as int;
            let na = -ai + di - 1;
            assert(qi == na / di);
            assert(na == qi * di + na % di) by (nonlinear_arith)
                requires qi == na / di, di > 0, na >= 0;
            assert(0 <= na % di < di) by (nonlinear_arith) requires di > 0;
            assert(ai == (-qi) * di + (di - 1 - na % di)) by (nonlinear_arith)
                requires na == qi * di + na % di, na == -ai + di - 1;
            vstd::arithmetic::div_mod::lemma_fundamental_div_mod_converse(ai, di, -qi, di - 1 - na % di);
        }
        -q
    }
}

/// What the remuxer needs to time the samples of an audio batch.
pub struct AudioParams {
    pub base: int,
    pub corr: int,
    pub last_dts: Option<i64>,
    pub mp3: bool,
    pub ref_num: int,
    pub ref_den: int,
    pub ref_floor: int,
}

/// A sample of an audio batch that goes into the segment: its times and its index in the batch.
pub struct AudioOut {
    pub dts: int,
    pub duration: int,
    pub originalDts: int,
    pub index: int,
}

/// The samples written so far and where the audio timeline stands.
pub struct AudioRun {
    pub outs: Seq<AudioOut>,
    pub next: Option<AudioClock>,
}

/// A clock value in units of `1 / d`, rounded down.
pub open spec fn rescale(c: AudioClock, d: int) -> int {
    if c.den == d {
        c.num as int
    } else {
        (c.num * d) / (c.den as int)
    }
}

/// One sample of an audio batch. Samples before the dts base are skipped. AAC frames are
/// laid one reference duration apart from where the timeline stands, and a frame that
/// would start three or more frames before it is dropped. MP3 frames keep their own
/// spacing, shifted by the batch's correction.
pub open spec fn audio_step(run: AudioRun, b: Seq<AudioSample>, i: int, p: AudioParams) -> AudioRun {
    let orig = b[i].dts - p.base;
    if orig < 0 {
        run
    } else if !p.mp3 {
        let d = p.ref_den;
        let cur = match run.next {
            Some(c) => rescale(c, d),
            None => orig * d,
        };
        if orig * d - cur <= -3 * p.ref_num {
            run
        } else {
            let dts = cur / d;
            AudioRun {
                outs: run.outs.push(
                    AudioOut { dts, duration: (cur + p.ref_num) / d - dts, originalDts: orig, index: i },
                ),
                next: Some(AudioClock { num: (cur + p.ref_num) as i128, den: d as u64 }),
            }
        }
    } else {
        let dts = orig - p.corr;
        let dur = if i < b.len() - 1 {
            b[i + 1].dts - b[i].dts
        } else {
            match p.last_dts {
                Some(ld) => ld - b[i].dts,
                None => if run.outs.len() >= 1 {
                    run.outs.last().duration
                } else {
                    p.ref_floor
                },
            }
        };
        AudioRun {
            outs: run.outs.push(AudioOut { dts, duration: dur, originalDts: orig, index: i }),
            next: Some(AudioClock { num: (dts + dur) as i128, den: 1 }),
        }
    }
}

/// The first `k` samples of an audio batch, starting from timeline position `next0`.
pub open spec fn audio_run(b: Seq<AudioSample>, k: int, p: AudioParams, next0: Option<AudioClock>) -> AudioRun
    decreases k,
{
    if k <= 0 {
        AudioRun { outs: Seq::empty(), next: next0 }
    } else {
        audio_step(audio_run(b, k - 1, p, next0), b, k - 1, p)
    }
}

/// Flags of an audio sample.
pub open spec fn audio_flags() -> SampleFlags {
    SampleFlags { isLeading: 0, dependsOn: 1, isDependedOn: 0, hasRedundancy: 0, isNonSync: 0 }
}

/// An audio sample as written into the fragment.
pub open spec fn audio_mp4(o: AudioOut, b: Seq<AudioSample>) -> Mp4Sample {
    Mp4Sample {
        dts: o.dts as i64,
        pts: o.dts as i64,
        cts: 0,
        duration: o.duration as i64,
        size: b[o.index].length,
        originalDts: o.originalDts as i64,
        isKeyframe: false,
        flags: audio_flags(),
    }
}

/// The fragment samples of the audio samples written.
pub open spec fn audio_mp4s(outs: Seq<AudioOut>, b: Seq<AudioSample>) -> Seq<Mp4Sample> {
    outs.map_values(|o: AudioOut| audio_mp4(o, b))
}

/// The bytes of the audio samples written, in order.
pub open spec fn audio_kept_bytes(outs: Seq<AudioOut>, b: Seq<AudioSample>) -> Seq<u8> {
    outs.map_values(|o: AudioOut| b[o.index].unit@).flatten()
}

/// Bounds on a sample written and the timeline after it.
pub open spec fn audio_out_ok(o: AudioOut, n: int) -> bool {
    &&& 0 <= o.index < n
    &&& within(o.dts, 0x1000_0000_0000_0000)
    &&& within(o.duration, 0x4000_0000_0000)
    &&& within(o.originalDts, 0x1000_0000_0000_0000)
}

/// `n` zero bytes.
pub open spec fn zeros(n: int) -> Seq<u8> {
    Seq::new(n as nat, |i: int| 0u8)
}

/// The timing parameters of an audio batch.
pub open spec fn audio_params(base: i64, corr: i64, last_dts: Option<i64>, mp3: bool, ref_num: u64, ref_den: u64) -> AudioParams {
    AudioParams {
        base: base as int,
        corr: corr as int,
        last_dts,
        mp3,
        ref_num: ref_num as int,
        ref_den: ref_den as int,
        ref_floor: if ref_den == 0 { 0 } else { ref_num as int / ref_den as int },
    }
}

/// The invariant of an AAC run after `j` samples, from the clock `next0`.
pub open spec fn aac_run_ok(r: AudioRun, p: AudioParams, next0: Option<AudioClock>, lim: int) -> bool {
    let d = p.ref_den;
    &&& forall|i: int| 0 <= i < r.outs.len() - 1 ==> #[trigger] r.outs[i + 1].dts == r.outs[i].dts + r.outs[i].duration
    &&& r.outs.len() > 0 ==> r.next is Some
    &&& r.next is Some ==> r.next->Some_0.den == d && within(r.next->Some_0.num as int, lim)
    &&& r.outs.len() > 0 ==> r.next->Some_0.num as int / d == r.outs.last().dts + r.outs.last().duration
    &&& r.outs.len() == 0 ==> r.next == next0
    &&& next0 is Some && r.outs.len() > 0 ==> r.outs[0].dts == next0->Some_0.num as int / d
}

/// What an AAC run needs: a reference duration, sample times and a starting clock in range.
pub open spec fn aac_run_bounded(b: Seq<AudioSample>, k: int, p: AudioParams, next0: Option<AudioClock>, lim: int) -> bool {
    &&& !p.mp3
    &&& 1 <= p.ref_den <= 0x1_0000_0000
    &&& 0 <= p.ref_num <= REF_LIMIT()
    &&& 0 <= k <= b.len()
    &&& k <= 0x100_0000_0000
    &&& 0x1000_0000_0000_0000_0000_0000 <= lim <= 0x1_0000_0000_0000_0000_0000_0000_0000
    &&& forall|i: int| 0 <= i < k ==> within(#[trigger] b[i].dts - p.base, 0x1000_0000_0000_0000)
    &&& next0 is Some ==> next0->Some_0.den == p.ref_den && within(next0->Some_0.num as int, lim)
}

proof fn lemma_aac_run(b: Seq<AudioSample>, k: int, p: AudioParams, next0: Option<AudioClock>, lim: int)
    requires
        aac_run_bounded(b, k, p, next0, lim),
    ensures
        aac_run_ok(audio_run(b, k, p, next0), p, next0, lim + k * REF_LIMIT()),
    decreases k,
{
    if k > 0 {
        lemma_aac_run(b, k - 1, p, next0, lim);
        let r = audio_run(b, k - 1, p, next0);
        let i = k - 1;
        let orig = b[i].dts - p.base;
        let d = p.ref_den;
        assert(within(orig, 0x1000_0000_0000_0000));
        if orig >= 0 {
            let cur = match r.next {
                Some(c) => rescale(c, d),
                None => orig * d,
            };
            assert(within(orig * d, 0x1000_0000_0000_0000_0000_0000int)) by (nonlinear_arith)
                requires
                    within(orig, 0x1000_0000_0000_0000),
                    1 <= d <= 0x1_0000_0000;
            assert(within(cur, lim + (k - 1) * REF_LIMIT()));
            let nxt = cur + p.ref_num;
            assert(within(nxt, lim + k * REF_LIMIT()));
            assert(nxt <= 0x1_0000_0000_0000_0000_0000_0000_0000 + 0x100_0000_0000 * 0x1000_0000_0000) by (nonlinear_arith)
                requires
                    nxt <= lim + k * REF_LIMIT(),
                    lim <= 0x1_0000_0000_0000_0000_0000_0000_0000,
                    k <= 0x100_0000_0000,
                    REF_LIMIT() == 0x1000_0000_0000;
            assert(nxt >= -(0x1_0000_0000_0000_0000_0000_0000_0000 + 0x100_0000_0000 * 0x1000_0000_0000)) by (nonlinear_arith)
                requires
                    nxt >= -(lim + k * REF_LIMIT()),
                    lim <= 0x1_0000_0000_0000_0000_0000_0000_0000,
                    k <= 0x100_0000_0000,
                    REF_LIMIT() == 0x1000_0000_0000;
            let r2 = audio_run(b, k, p, next0);
            if !(orig * d - cur <= -3 * p.ref_num) {
                assert(r2.outs == r.outs.push(
                    AudioOut { dts: cur / d, duration: nxt / d - cur / d, originalDts: orig, index: i },
                ));
                assert forall|j: int| 0 <= j < r2.outs.len() - 1 implies #[trigger] r2.outs[j + 1].dts == r2.outs[j].dts + r2.outs[j].duration by {
                    if j < r.outs.len() - 1 {
                        assert(r2.outs[j] == r.outs[j]);
                        assert(r2.outs[j + 1] == r.outs[j + 1]);
                    } else {
                        assert(r2.outs[j] == r.outs.last());
                    }
                }
                if r.outs.len() > 0 {
                    assert(r2.outs[0] == r.outs[0]);
                }
            }
        }
    }
}

/// AAC frames are laid back to back: within a batch every frame written begins where the
/// one before it ends, the first begins at the clock the batch started from, and the clock
/// after the batch stands where its last frame ends.
pub proof fn lemma_aac_frames_back_to_back(b: Seq<AudioSample>, p: AudioParams, next0: Option<AudioClock>)
    requires
        aac_run_bounded(b, b.len() as int, p, next0, 0x1000_0000_0000_0000_0000_0000),
    ensures
        ({
            let r = audio_run(b, b.len() as int, p, next0);
            &&& forall|i: int| 0 <= i < r.outs.len() - 1 ==> #[trigger] r.outs[i + 1].dts == r.outs[i].dts + r.outs[i].duration
            &&& r.outs.len() > 0 ==> r.next is Some && r.next->Some_0.den == p.ref_den
                && r.next->Some_0.num as int / p.ref_den == r.outs.last().dts + r.outs.last().duration
            &&& next0 is Some && r.outs.len() > 0 ==> r.outs[0].dts == next0->Some_0.num as int / p.ref_den
        }),
{
    lemma_aac_run(b, b.len() as int, p, next0, 0x1000_0000_0000_0000_0000_0000);
}

/// Consecutive AAC batches join up: when a batch starts from the clock another one left,
/// its first frame begins where the other's last frame ended.
pub proof fn lemma_aac_batches_back_to_back(
    b1: Seq<AudioSample>,
    p1: AudioParams,
    next0: Option<AudioClock>,
    b2: Seq<AudioSample>,
    p2: AudioParams,
)
    requires
        aac_run_bounded(b1, b1.len() as int, p1, next0, 0x1000_0000_0000_0000_0000_0000),
        !p2.mp3,
        p2.ref_den == p1.ref_den,
        0 <= p2.ref_num <= REF_LIMIT(),
        b2.len() <= 0x100_0000_0000,
        forall|i: int| 0 <= i < b2.len() ==> within(#[trigger] b2[i].dts - p2.base, 0x1000_0000_0000_0000),
        audio_run(b1, b1.len() as int, p1, next0).outs.len() > 0,
        audio_run(b2, b2.len() as int, p2, audio_run(b1, b1.len() as int, p1, next0).next).outs.len() > 0,
    ensures
        ({
            let r1 = audio_run(b1, b1.len() as int, p1, next0);
            let r2 = audio_run(b2, b2.len() as int, p2, r1.next);
            r2.outs[0].dts == r1.outs.last().dts + r1.outs.last().duration
        }),
{
    let lim1 = 0x1000_0000_0000_0000_0000_0000int;
    lemma_aac_run(b1, b1.len() as int, p1, next0, lim1);
    let r1 = audio_run(b1, b1.len() as int, p1, next0);
    let lim2 = lim1 + b1.len() * REF_LIMIT();
    assert(lim2 <= 0x1_0000_0000_0000_0000_0000_0000_0000) by (nonlinear_arith)
        requires
            lim2 == lim1 + b1.len() * REF_LIMIT(),
            lim1 == 0x1000_0000_0000_0000_0000_0000int,
            b1.len() <= 0x100_0000_0000,
            REF_LIMIT() == 0x1000_0000_0000;
    lemma_aac_run(b2, b2.len() as int, p2, r1.next, lim2);
}

proof fn lemma_audio_total_prepend(s: AudioSample, body: Seq<AudioSample>)
    ensures
        audio_total(seq![s] + body) == s.length + audio_total(body),
    decreases body.len(),
{
    let whole = seq![s] + body;
    if body.len() > 0 {
        assert(whole.drop_last() =~= seq![s] + body.drop_last());
        assert(whole.last() == body.last());
        lemma_audio_total_prepend(s, body.drop_last());
        assert(audio_total(whole) == audio_total(whole.drop_last()) + whole.last().length);
        assert(audio_total(body) == audio_total(body.drop_last()) + body.last().length);
    } else {
        assert(whole.drop_last() =~= Seq::<AudioSample>::empty());
        assert(whole.last() == s);
        assert(audio_total(whole) == audio_total(whole.drop_last()) + whole.last().length);
        assert(audio_total(whole.drop_last()) == 0);
    }
}

proof fn lemma_audio_total_take(b: Seq<AudioSample>, i: int)
    requires
        0 <= i < b.len(),
    ensures
        audio_total(b.take(i + 1)) == audio_total(b.take(i)) + b[i].length,
{
    assert(b.take(i + 1).drop_last() =~= b.take(i));
}

/// Total bytes of a batch of audio samples.
fn audio_batch_len(batch: &Vec<AudioSample>) -> (r: usize)
    requires
        audio_total(batch@) <= 2 * TRACK_LIMIT(),
    ensures
        r == audio_total(batch@),
{
    let mut total: usize = 0;
    let mut i: usize = 0;
    while i < batch.len()
        invariant
            i <= batch@.len(),
            total == audio_total(batch@.take(i as int)),
            audio_total(batch@) <= 2 * TRACK_LIMIT(),
        decreases batch@.len() - i,
    {
        proof {
            lemma_audio_total_take(batch@, i as int);
            lemma_audio_total_prefix(batch@, i + 1);
        }
        total = total + batch[i].length;
        i = i + 1;
    }
    assert(batch@.take(i as int) =~= batch@);
    total
}

proof fn lemma_audio_total_prefix(b: Seq<AudioSample>, k: int)
    requires
        0 <= k <= b.len(),
    ensures
        audio_total(b.take(k)) <= audio_total(b),
    decreases b.len() - k,
{
    if k < b.len() {
        lemma_audio_total_prefix(b, k + 1);
        lemma_audio_total_take(b, k);
    } else {
        assert(b.take(k) =~= b);
    }
}

/// The fragment samples, written bytes and final timeline position of an audio batch.
fn audio_samples_of(
    batch: &Vec<AudioSample>,
    base: i64,
    corr: i64,
    lastDts: Option<i64>,
    mp3: bool,
    refNum: u64,
    refDen: u64,
    next0: Option<AudioClock>,
) -> (r: (Vec<Mp4Sample>, Vec<u8>, Option<AudioClock>))
    requires
        1 <= batch@.len() <= TRACK_LIMIT() + 1,
        forall|k: int| 0 <= k < batch@.len() ==> audio_sample_ok(#[trigger] batch@[k]),
        audio_total(batch@) <= 2 * TRACK_LIMIT(),
        within(base as int, TIME_LIMIT()),
        within(corr as int, CORRECTION_LIMIT()),
        match lastDts {
            Some(ld) => within(ld as int, TIME_LIMIT()),
            None => true,
        },
        refNum <= REF_LIMIT(),
        refDen <= 0x1_0000_0000,
        !mp3 ==> refDen >= 1,
        match next0 {
            Some(c) => clock_ok(c),
            None => true,
        },
    ensures
        ({
            let run = audio_run(batch@, batch@.len() as int, audio_params(base, corr, lastDts, mp3, refNum, refDen), next0);
            &&& r.0@ == audio_mp4s(run.outs, batch@)
            &&& r.1@ == audio_kept_bytes(run.outs, batch@)
            &&& r.2 == run.next
        }),
        match r.2 {
            Some(c) => clock_ok(c),
            None => true,
        },
        forall|k: int| 0 <= k < r.0@.len() ==> mp4_sample_bounded(#[trigger] r.0@[k]),
        r.1@.len() <= audio_total(batch@),
        r.0@.len() <= batch@.len(),
{
    let n = batch.len();
    let ghost b = batch@;
    let ghost p = audio_params(base, corr, lastDts, mp3, refNum, refDen);
    let refFloor: i64 = if refDen == 0 { 0 } else { (refNum / refDen) as i64 };
    let mut ms: Vec<Mp4Sample> = Vec::new();
    let mut payload: Vec<u8> = Vec::new();
    let mut next = next0;
    let ghost mut run = AudioRun { outs: Seq::empty(), next: next0 };
    let mut i: usize = 0;
    proof {
        assert(audio_mp4s(run.outs, b) =~= ms@);
        assert(audio_kept_bytes(run.outs, b) =~= payload@) by {
            assert(run.outs.map_values(|o: AudioOut| b[o.index].unit@) =~= Seq::<Seq<u8>>::empty());
        }
    }
    while i < n
        invariant
            n == b.len(),
            b == batch@,
            1 <= n <= TRACK_LIMIT() + 1,
            i <= n,
            forall|k: int| 0 <= k < n ==> audio_sample_ok(#[trigger] b[k]),
            audio_total(b) <= 2 * TRACK_LIMIT(),
            within(base as int, TIME_LIMIT()),
            within(corr as int, CORRECTION_LIMIT()),
            match lastDts {
                Some(ld) => within(ld as int, TIME_LIMIT()),
                None => true,
            },
            refNum <= REF_LIMIT(),
            refDen <= 0x1_0000_0000,
            !mp3 ==> refDen >= 1,
            p == audio_params(base, corr, lastDts, mp3, refNum, refDen),
            refFloor == p.ref_floor,
            run == audio_run(b, i as int, p, next0),
            next == run.next,
            match next {
                Some(c) => clock_ok(c),
                None => true,
            },
            ms@ == audio_mp4s(run.outs, b),
            payload@ == audio_kept_bytes(run.outs, b),
            payload@.len() <= audio_total(b.take(i as int)),
            forall|k: int| 0 <= k < run.outs.len() ==> audio_out_ok(#[trigger] run.outs[k], n as int),
            run.outs.len() <= i,
        decreases n - i,
    {
        let s = &batch[i];
        let orig = s.dts - base;
        let ghost before = run;
        proof {
            lemma_audio_total_take(b, i as int);
        }
        if orig < 0 {
            // a sample before the dts base is passed over
        } else if !mp3 {
            let d = refDen as i128;
            proof {
                let oi = orig as int;
                let di = d as int;
                assert(0 <= oi * di <= 0x400_0000_0000 * 0x1_0000_0000) by (nonlinear_arith)
                    requires 0 <= oi <= 0x400_0000_0000, 1 <= di <= 0x1_0000_0000;
            }
            let cur: i128 = match next {
                Some(c) => if c.den as i128 == d {
                    c.num
                } else {
                    proof {
                        let cn = c.num as int;
                        let cd = c.den as int;
                        let di = d as int;
                        assert(-0x1000_0000_0000_0000_0000_0000_0000_0000 <= cn * di <= 0x1000_0000_0000_0000_0000_0000_0000_0000) by (nonlinear_arith)
                            requires -0x1000_0000_0000_0000 * cd <= cn <= 0x1000_0000_0000_0000 * cd, 1 <= cd <= 0x1_0000_0000, 1 <= di <= 0x1_0000_0000;
                    }
                    floor_div(c.num * d, c.den as i128)
                },
                None => orig as i128 * d,
            };
            proof {
                assert(cur == match before.next { Some(c) => rescale(c, d as int), None => orig * d });
                assert(within(cur as int, 0x1000_0000_0000_0000 * d)) by {
                    match before.next {
                        Some(c) => {
                            if c.den as int != d as int {
                                let cn = c.num as int;
                                let cd = c.den as int;
                                let di = d as int;
                                let q = (cn * di) / cd;
                                assert(-0x1000_0000_0000_0000 * di <= q <= 0x1000_0000_0000_0000 * di) by (nonlinear_arith)
                                    requires q == (cn * di) / cd, -0x1000_0000_0000_0000 * cd <= cn <= 0x1000_0000_0000_0000 * cd, 1 <= cd, 1 <= di;
                            }
                        },
                        None => {
                            let oi = orig as int;
                            let di = d as int;
                            assert(-0x1000_0000_0000_0000 * di <= oi * di <= 0x1000_0000_0000_0000 * di) by (nonlinear_arith)
                                requires 0 <= oi <= 0x400_0000_0000, 1 <= di;
                        },
                    }
                }
            }
            if (orig as i128) * d - cur <= -3 * (refNum as i128) {
                // the frame would overlap those before it by three frames or more: dropped
            } else {
                let dts128 = floor_div(cur, d);
                let end128 = floor_div(cur + refNum as i128, d);
                proof {
                    let ci = cur as int;
                    let di = d as int;
                    let rn = refNum as int;
                    let oi = orig as int;
                    let q0 = dts128 as int;
                    let q1 = end128 as int;
                    assert(ci < oi * di + 3 * rn);
                    assert(-0x1000_0000_0000_0000 <= q0 <= 0x1000_0000_0000_0000) by (nonlinear_arith)
                        requires q0 == ci / di, -0x1000_0000_0000_0000 * di <= ci <= 0x1000_0000_0000_0000 * di, 1 <= di;
                    assert(0 <= q1 - q0 <= rn + 1) by (nonlinear_arith)
                        requires q0 == ci / di, q1 == (ci + rn) / di, 1 <= di, rn >= 0;
                    assert(-0x1000_0000_0000_0000 * di <= ci + rn <= 0x1000_0000_0000_0000 * di) by (nonlinear_arith)
                        requires ci + rn < oi * di + 4 * rn, -0x1000_0000_0000_0000 * di <= ci,
                            0 <= oi <= 0x400_0000_0000, 1 <= di <= 0x1_0000_0000, 0 <= rn <= 0x1000_0000_0000;
                }
                let dts = dts128 as i64;
                let dur = (end128 - dts128) as i64;
                ms.push(
                    Mp4Sample {
                        dts,
                        pts: dts,
                        cts: 0,
                        duration: dur,
                        size: s.length,
                        originalDts: orig,
                        isKeyframe: false,
                        flags: SampleFlags { isLeading: 0, dependsOn: 1, isDependedOn: 0, hasRedundancy: 0, isNonSync: 0 },
                    },
                );
                push_all(&mut payload, s.unit.as_slice());
                next = Some(AudioClock { num: cur + refNum as i128, den: refDen });
            }
        } else {
            let dts = orig - corr;
            let dur: i64 = if i + 1 < n {
                batch[i + 1].dts - s.dts
            } else {
                match lastDts {
                    Some(ld) => ld - s.dts,
                    None => if ms.len() >= 1 {
                        proof {
                            assert(audio_out_ok(before.outs[before.outs.len() - 1], n as int));
                        }
                        ms[ms.len() - 1].duration
                    } else {
                        refFloor
                    },
                }
            };
            ms.push(
                Mp4Sample {
                    dts,
                    pts: dts,
                    cts: 0,
                    duration: dur,
                    size: s.length,
                    originalDts: orig,
                    isKeyframe: false,
                    flags: SampleFlags { isLeading: 0, dependsOn: 1, isDependedOn: 0, hasRedundancy: 0, isNonSync: 0 },
                },
            );
            push_all(&mut payload, s.unit.as_slice());
            next = Some(AudioClock { num: (dts + dur) as i128, den: 1 });
        }
        proof {
            run = audio_step(before, b, i as int, p);
            assert(payload@.len() <= audio_total(b.take(i + 1)));
            if run.outs.len() > before.outs.len() {
                let o = run.outs.last();
                assert(run.outs == before.outs.push(o));
                assert(audio_mp4s(run.outs, b) =~= audio_mp4s(before.outs, b).push(audio_mp4(o, b)));
                let f = |x: AudioOut| b[x.index].unit@;
                assert(run.outs.map_values(f) =~= before.outs.map_values(f).push(b[o.index].unit@));
                before.outs.map_values(f).lemma_flatten_push(b[o.index].unit@);
                assert(ms@ =~= audio_mp4s(run.outs, b));
                assert forall|k: int| 0 <= k < run.outs.len() implies audio_out_ok(#[trigger] run.outs[k], n as int) by {
                    if k < before.outs.len() {
                        assert(run.outs[k] == before.outs[k]);
                    }
                }
            }
        }
        i = i + 1;
    }
    assert(b.take(n as int) =~= b);
    (ms, payload, next)
}

} // verus!
