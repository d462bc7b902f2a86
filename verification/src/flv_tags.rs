//! What the demuxer does with the body of each FLV tag.
use vstd::prelude::*;
use vstd::string::{StrSliceExecFns, StringExecFns};
use crate::bytes::{be16_at, be24_at, copy_range, read_be_i24, read_be_u16, sign_extend24};
use crate::exp_golomb::ExpGolombError;
use crate::flv_codec::{AudioConfig, DemuxError, spec_aac_config, spec_mp3_header};
use crate::flv_demuxer::{
    AudioTrack, AudioTrackMetaData, DemuxEvent, FLVDemuxer, TrackMetaData as Tmd, VideoDimension,
    VideoTrack, VideoTrackMetaData, avc_data_queued, initial_metadata_dispatched, track_room, video_metadata_ok,
};
use crate::mp4_generator::{Meta, TrackType};
use crate::amf_parser::{AMFProperty, AMFValue, AmfV, ScriptData, amf_script, findProperty, parseScriptData, prop_lookup, props_without, removeProperty, view_props};
use crate::media_info::{KeyframesIndex, MediaInfo, spec_is_complete};
use crate::mp4_remuxer::{
    MP4Remuxer, MediaSegment, REF_LIMIT, audio_remux_step, dts_base_calculated,
    init_segment_is, video_remux_step,
};
use crate::sps_parser::{
    FrameInfo, SPSInfo, Size, SpsSyntax, codec_height_of, codec_width_of, level_string_of,
    parseSPS, present_width_of, profile_string_of, sps_info_of, sps_reader_start, spec_sps_syntax,
};

verus! {

// ---------------------------------------------------------------- copies

/// Same fields, strings and byte vectors compared by contents.
pub open spec fn meta_same(a: Meta, b: Meta) -> bool {
    &&& a.id == b.id
    &&& a._type == b._type
    &&& a.timescale == b.timescale
    &&& a.duration == b.duration
    &&& a.presentWidth == b.presentWidth
    &&& a.presentHeight == b.presentHeight
    &&& a.codecWidth == b.codecWidth
    &&& a.codecHeight == b.codecHeight
    &&& a.channelCount == b.channelCount
    &&& a.audioSampleRate == b.audioSampleRate
    &&& a.codec@ == b.codec@
    &&& a.config@ == b.config@
    &&& a.avcc@ == b.avcc@
}

pub fn copy_meta(m: &Meta) -> (r: Meta)
    ensures
        meta_same(r, *m),
{
    let config = copy_range(m.config.as_slice(), 0, m.config.len());
    let avcc = copy_range(m.avcc.as_slice(), 0, m.avcc.len());
    assert(config@ =~= m.config@);
    assert(avcc@ =~= m.avcc@);
    Meta {
        id: m.id,
        _type: m._type,
        timescale: m.timescale,
        duration: m.duration,
        presentWidth: m.presentWidth,
        presentHeight: m.presentHeight,
        codecWidth: m.codecWidth,
        codecHeight: m.codecHeight,
        channelCount: m.channelCount,
        audioSampleRate: m.audioSampleRate,
        codec: m.codec.clone(),
        config,
        avcc,
    }
}

pub fn copy_frame(f: &FrameInfo) -> (r: FrameInfo)
    ensures
        r == *f,
{
    FrameInfo { fixed: f.fixed, fps: f.fps, fps_den: f.fps_den, fps_num: f.fps_num }
}

pub open spec fn video_meta_same(a: VideoTrackMetaData, b: VideoTrackMetaData) -> bool {
    &&& meta_same(a.meta, b.meta)
    &&& a.profile@ == b.profile@
    &&& a.level@ == b.level@
    &&& a.bitDepth == b.bitDepth
    &&& a.chromaFormat == b.chromaFormat
    &&& a.sarRatio == b.sarRatio
    &&& a.frameRate == b.frameRate
    &&& a.refSampleDuration == b.refSampleDuration
}

pub fn copy_video_meta(m: &VideoTrackMetaData) -> (r: VideoTrackMetaData)
    ensures
        video_meta_same(r, *m),
{
    VideoTrackMetaData {
        meta: copy_meta(&m.meta),
        profile: m.profile.clone(),
        level: m.level.clone(),
        bitDepth: m.bitDepth,
        chromaFormat: m.chromaFormat,
        sarRatio: Size { width: m.sarRatio.width, height: m.sarRatio.height },
        frameRate: copy_frame(&m.frameRate),
        refSampleDuration: m.refSampleDuration,
    }
}

pub open spec fn audio_meta_same(a: AudioTrackMetaData, b: AudioTrackMetaData) -> bool {
    &&& meta_same(a.meta, b.meta)
    &&& a.originalCodec@ == b.originalCodec@
    &&& a.refSampleDurationNum == b.refSampleDurationNum
    &&& a.refSampleDurationDen == b.refSampleDurationDen
}

pub fn copy_audio_meta(m: &AudioTrackMetaData) -> (r: AudioTrackMetaData)
    ensures
        audio_meta_same(r, *m),
{
    AudioTrackMetaData {
        meta: copy_meta(&m.meta),
        originalCodec: m.originalCodec.clone(),
        refSampleDurationNum: m.refSampleDurationNum,
        refSampleDurationDen: m.refSampleDurationDen,
    }
}

// ---------------------------------------------------------------- codec string

/// Lowercase hexadecimal digit.
pub open spec fn hex_digit(d: nat) -> char {
    if d < 10 {
        (48 + d) as char
    } else {
        (87 + d) as char
    }
}

/// A byte in lowercase hexadecimal, without a leading zero.
pub open spec fn hex_byte(b: u8) -> Seq<char> {
    if b < 16 {
        seq![hex_digit(b as nat)]
    } else {
        seq![hex_digit((b / 16) as nat), hex_digit((b % 16) as nat)]
    }
}

/// `avc1.` and the profile, constraint and level bytes of an SPS, each in lower-case
/// hexadecimal without leading zeros.
pub open spec fn avc1_codec(sps: Seq<u8>) -> Seq<char> {
    seq!['a', 'v', 'c', '1', '.'] + hex_byte(sps[1]) + hex_byte(sps[2]) + hex_byte(sps[3])
}

fn hex_digit_str(d: u8) -> (r: &'static str)
    requires
        d < 16,
    ensures
        r@ == seq![hex_digit(d as nat)],
{
    proof {
        reveal_strlit("0");
        reveal_strlit("1");
        reveal_strlit("2");
        reveal_strlit("3");
        reveal_strlit("4");
        reveal_strlit("5");
        reveal_strlit("6");
        reveal_strlit("7");
        reveal_strlit("8");
        reveal_strlit("9");
        reveal_strlit("a");
        reveal_strlit("b");
        reveal_strlit("c");
        reveal_strlit("d");
        reveal_strlit("e");
        reveal_strlit("f");
    }
    match d {
        0 => "0",
        1 => "1",
        2 => "2",
        3 => "3",
        4 => "4",
        5 => "5",
        6 => "6",
        7 => "7",
        8 => "8",
        9 => "9",
        10 => "a",
        11 => "b",
        12 => "c",
        13 => "d",
        14 => "e",
        _ => "f",
    }
}

fn push_hex(s: &mut String, b: u8)
    ensures
        final(s)@ == old(s)@ + hex_byte(b),
{
    if b >= 16 {
        s.append(hex_digit_str(b / 16));
    }
    s.append(hex_digit_str(b % 16));
    assert(final(s)@ =~= old(s)@ + hex_byte(b));
}

/// The RFC 6381 codec string of an AVC stream whose SPS is `sps`.
pub fn avc1_codec_string(sps: &[u8]) -> (r: String)
    requires
        sps@.len() >= 4,
    ensures
        r@ == avc1_codec(sps@),
{
    let mut s = String::from_str("avc1.");
    proof {
        reveal_strlit("avc1.");
    }
    push_hex(&mut s, sps[1]);
    push_hex(&mut s, sps[2]);
    push_hex(&mut s, sps[3]);
    assert(s@ =~= avc1_codec(sps@));
    s
}

// ---------------------------------------------------------------- AVCDecoderConfigurationRecord

/// What the fixed header of an AVCDecoderConfigurationRecord says.
#[derive(PartialEq, Eq, Structural, Clone, Copy)]
pub enum AvccHead {
    /// Fewer than 7 bytes.
    TooShort,
    /// Version other than 1, or profile 0.
    BadVersion,
    /// NAL length size other than 3 or 4.
    StrangeLength(u8),
    /// No SPS (the NAL length size is given).
    NoSps(u8),
    /// The NAL length size and the number of SPS.
    Good(u8, u8),
}

pub open spec fn avcc_head(buf: Seq<u8>, off: int, size: int) -> AvccHead {
    if size < 7 {
        AvccHead::TooShort
    } else if buf[off] != 1 || buf[off + 1] == 0 {
        AvccHead::BadVersion
    } else {
        let ls = (buf[off + 4] % 4 + 1) as u8;
        if ls != 3 && ls != 4 {
            AvccHead::StrangeLength(ls)
        } else {
            let n = (buf[off + 5] % 32) as u8;
            if n == 0 {
                AvccHead::NoSps(ls)
            } else {
                AvccHead::Good(ls, n)
            }
        }
    }
}

/// The header of an AVCDecoderConfigurationRecord (ISO/IEC 14496-15 5.2.4.1): version 1
/// and a non-zero profile are required; the NAL unit length size is the low two bits of the
/// fifth byte plus one and must be 3 or 4; the SPS count is the low five bits of the sixth
/// byte and must not be 0.
pub proof fn lemma_avcc_header(buf: Seq<u8>, off: int, size: int)
    requires
        0 <= off,
        7 <= size,
        off + size <= buf.len(),
    ensures
        ({
            let h = avcc_head(buf, off, size);
            let ls = ((buf[off + 4] & 3u8) + 1) as u8;
            let n = buf[off + 5] & 31u8;
            let ok = buf[off] == 1 && buf[off + 1] != 0;
            &&& h !is TooShort
            &&& (h is BadVersion) == !ok
            &&& ok && ls != 3 && ls != 4 ==> h == AvccHead::StrangeLength(ls)
            &&& ok && (ls == 3 || ls == 4) && n == 0 ==> h == AvccHead::NoSps(ls)
            &&& ok && (ls == 3 || ls == 4) && n != 0 ==> h == AvccHead::Good(ls, n)
        }),
{
    let b4 = buf[off + 4];
    let b5 = buf[off + 5];
    assert(((b4 & 3u8) + 1) as int == b4 % 4 + 1 && (b5 & 31u8) as int == b5 % 32) by (bit_vector);
}

fn avcc_header(buf: &[u8], off: usize, size: usize) -> (r: AvccHead)
    requires
        off + size <= buf@.len(),
    ensures
        r == avcc_head(buf@, off as int, size as int),
{
    if size < 7 {
        return AvccHead::TooShort;
    }
    if buf[off] != 1 || buf[off + 1] == 0 {
        return AvccHead::BadVersion;
    }
    proof {
        let b = buf@[off + 4];
        assert(b & 3 == b % 4) by (bit_vector);
    }
    let ls = (buf[off + 4] & 3) + 1;
    if ls != 3 && ls != 4 {
        return AvccHead::StrangeLength(ls);
    }
    let n = buf[off + 5] & 31;
    proof {
        let b = buf@[off + 5];
        assert(b & 31 == b % 32) by (bit_vector);
    }
    if n == 0 {
        AvccHead::NoSps(ls)
    } else {
        AvccHead::Good(ls, n)
    }
}

/// The SPS entries of a record from entry `i` on (`count` left, starting at `offset`):
/// each non-empty one as its index and buffer range, and the offset after the last;
/// `None` when an entry runs past the record.
pub open spec fn avcc_sps_walk(buf: Seq<u8>, off: int, size: int, offset: int, i: int, count: int) -> Option<(Seq<(int, int, int)>, int)>
    decreases count,
{
    if count <= 0 {
        Some((Seq::empty(), offset))
    } else if offset + 2 > size {
        None
    } else {
        let len = be16_at(buf, off + offset);
        if len == 0 {
            avcc_sps_walk(buf, off, size, offset + 2, i + 1, count - 1)
        } else if offset + 2 + len > size {
            None
        } else {
            match avcc_sps_walk(buf, off, size, offset + 2 + len, i + 1, count - 1) {
                None => None,
                Some((rest, e)) => Some((seq![(i, off + offset + 2, len)] + rest, e)),
            }
        }
    }
}

/// The PPS length fields of a record can all be read, `count` of them from `offset`.
pub open spec fn avcc_pps_walk(buf: Seq<u8>, off: int, size: int, offset: int, count: int) -> bool
    decreases count,
{
    if count <= 0 {
        true
    } else if offset + 2 > size {
        false
    } else {
        avcc_pps_walk(buf, off, size, offset + 2 + be16_at(buf, off + offset), count - 1)
    }
}

/// The syntax of the SPS at `[start, start + len)`, when it parses.
pub open spec fn sps_syntax_at(buf: Seq<u8>, start: int, len: int) -> Result<(SpsSyntax, crate::exp_golomb::GolombState), ExpGolombError> {
    spec_sps_syntax(sps_reader_start(buf.subrange(start, start + len)))
}

/// Frame rate the stream announces, or the reference one when it announces none.
pub open spec fn chosen_frame_rate(f: FrameInfo, reference: FrameInfo) -> FrameInfo {
    if !f.fixed || f.fps_num == 0 || f.fps_den == 0 {
        reference
    } else {
        f
    }
}

/// Duration of one frame in timescale units, rounded down and bounded.
pub open spec fn frame_duration(timescale: u32, f: FrameInfo) -> u64 {
    let d = if f.fps_num == 0 { 0 } else { timescale as int * f.fps_den as int / f.fps_num as int };
    if d > REF_LIMIT() {
        REF_LIMIT() as u64
    } else {
        d as u64
    }
}

/// `m` carries what the SPS with info `info` and bytes `sps` describes.
pub open spec fn sps_applied(m: VideoTrackMetaData, info: SPSInfo, sps: Seq<u8>, timescale: u32, reference: FrameInfo) -> bool {
    let f = chosen_frame_rate(info.frame_rate, reference);
    &&& m.meta.codecWidth == info.codec_size.width as u32
    &&& m.meta.codecHeight == info.codec_size.height as u32
    &&& m.meta.presentWidth == info.present_size.width as u32
    &&& m.meta.presentHeight == info.present_size.height as u32
    &&& m.profile@ == info.profile_string@
    &&& m.level@ == info.level_string@
    &&& m.bitDepth == info.bit_depth
    &&& m.chromaFormat == info.chroma_format
    &&& m.sarRatio == info.sar_ratio
    &&& m.frameRate == f
    &&& m.refSampleDuration == frame_duration(timescale, f)
    &&& m.meta.codec@ == avc1_codec(sps)
}

// ---------------------------------------------------------------- handing over

/// The event for a media segment, if any.
pub open spec fn media_events(r: Option<MediaSegment>) -> Seq<DemuxEvent> {
    match r {
        Some(m) => seq![DemuxEvent::Media(m)],
        None => Seq::empty(),
    }
}

/// The queued samples went to the remuxer, whose segments were reported.
pub open spec fn handed_over(d0: FLVDemuxer, d1: FLVDemuxer, r0: MP4Remuxer, r1: MP4Remuxer, e0: Seq<DemuxEvent>, e1: Seq<DemuxEvent>) -> bool {
    &&& d1 == (FLVDemuxer { _audioTrack: d1._audioTrack, _videoTrack: d1._videoTrack, ..d0 })
    &&& exists|s2: MP4Remuxer, rv: Option<MediaSegment>, ra: Option<MediaSegment>| {
        &&& video_remux_step(dts_base_calculated(r0, d0._audioTrack, d0._videoTrack), d0._videoTrack, false, s2, d1._videoTrack, rv)
        &&& audio_remux_step(s2, d0._audioTrack, false, r1, d1._audioTrack, ra)
        &&& e1 == e0 + media_events(rv) + media_events(ra)
    }
}

/// The queued tracks `a0` and `v0` went through remuxer `r0` (video first), leaving the
/// tracks `a1` and `v1`, the remuxer `r1` and the events `fl` of the segments made.
#[verifier::opaque]
pub open spec fn tracks_handed(a0: AudioTrack, v0: VideoTrack, r0: MP4Remuxer, a1: AudioTrack, v1: VideoTrack, r1: MP4Remuxer, fl: Seq<DemuxEvent>) -> bool {
    exists|s2: MP4Remuxer, rv: Option<MediaSegment>, ra: Option<MediaSegment>| {
        &&& #[trigger] video_remux_step(dts_base_calculated(r0, a0, v0), v0, false, s2, v1, rv)
        &&& #[trigger] audio_remux_step(s2, a0, false, r1, a1, ra)
        &&& fl == media_events(rv) + media_events(ra)
    }
}

/// Before new metadata goes out: when every track had sent its initial metadata (`sent`)
/// and samples wait to be dispatched, the queued samples of `d0` went to the remuxer,
/// giving the tracks of `d1`, remuxer `r1` and the events `fl`; otherwise nothing moved.
pub open spec fn samples_flushed(sent: bool, d0: FLVDemuxer, d1: FLVDemuxer, r0: MP4Remuxer, r1: MP4Remuxer, fl: Seq<DemuxEvent>) -> bool {
    if sent && d0._dispatch && (d0._audioTrack.length > 0 || d0._videoTrack.length > 0) {
        tracks_handed(d0._audioTrack, d0._videoTrack, r0, d1._audioTrack, d1._videoTrack, r1, fl)
    } else {
        &&& r1 == r0
        &&& fl.len() == 0
        &&& d1._audioTrack == d0._audioTrack
        &&& d1._videoTrack == d0._videoTrack
    }
}

proof fn lemma_handed_tracks(d0: FLVDemuxer, d1: FLVDemuxer, r0: MP4Remuxer, r1: MP4Remuxer, e0: Seq<DemuxEvent>, e1: Seq<DemuxEvent>)
    requires
        handed_over(d0, d1, r0, r1, e0, e1),
    ensures
        tracks_handed(d0._audioTrack, d0._videoTrack, r0, d1._audioTrack, d1._videoTrack, r1, e1.skip(e0.len() as int)),
        e1 == e0 + e1.skip(e0.len() as int),
{
    reveal(tracks_handed);
    let (s2, rv, ra) = choose|s2: MP4Remuxer, rv: Option<MediaSegment>, ra: Option<MediaSegment>| {
        &&& video_remux_step(dts_base_calculated(r0, d0._audioTrack, d0._videoTrack), d0._videoTrack, false, s2, d1._videoTrack, rv)
        &&& audio_remux_step(s2, d0._audioTrack, false, r1, d1._audioTrack, ra)
        &&& e1 == e0 + media_events(rv) + media_events(ra)
    };
    assert(e1.skip(e0.len() as int) =~= media_events(rv) + media_events(ra));
    assert(e1 =~= e0 + e1.skip(e0.len() as int));
}

/// `MIME` type of an FLV stream with the codecs `codecs`.
pub open spec fn flv_mime(codecs: Seq<char>) -> Seq<char> {
    "video/x-flv; codecs=\""@ + codecs + "\""@
}

fn flv_mime_string(first: &String, second: Option<&String>) -> (r: String)
    ensures
        r@ == flv_mime(
            match second {
                Some(s) => first@ + ","@ + s@,
                None => first@,
            },
        ),
{
    let mut m = String::from_str("video/x-flv; codecs=\"");
    m.append(first.as_str());
    match second {
        Some(s) => {
            m.append(",");
            m.append(s.as_str());
        },
        None => {},
    }
    m.append("\"");
    m
}

impl FLVDemuxer {
    /// Hands the queued samples to the remuxer and reports the segments it makes.
    #[verifier::spinoff_prover]
    pub fn hand_over(&mut self, remuxer: &mut MP4Remuxer, events: &mut Vec<DemuxEvent>)
        requires
            old(self).wf(),
            old(remuxer).wf(),
        ensures
            final(self).wf(),
            final(remuxer).wf(),
            handed_over(*old(self), *final(self), *old(remuxer), *final(remuxer), old(events)@, final(events)@),
    {
        let (ra, rv) = remuxer.remux(&mut self._audioTrack, &mut self._videoTrack);
        let ghost e0 = events@;
        let ghost rv0 = rv;
        let ghost ra0 = ra;
        match rv {
            Some(m) => events.push(DemuxEvent::Media(m)),
            None => {},
        }
        match ra {
            Some(m) => events.push(DemuxEvent::Media(m)),
            None => {},
        }
        assert(events@ =~= e0 + media_events(rv0) + media_events(ra0));
        assert(handed_over(*old(self), *self, *old(remuxer), *remuxer, old(events)@, events@));
    }

    /// Before new metadata goes out: the queued samples are handed over once initial
    /// metadata went out for every track; else `video` tells which track's initial
    /// metadata this is.
    fn flush_before_metadata(&mut self, video: bool, remuxer: &mut MP4Remuxer, events: &mut Vec<DemuxEvent>)
        requires
            old(self).wf(),
            old(remuxer).wf(),
        ensures
            final(self).wf(),
            final(remuxer).wf(),
            final(events)@.len() >= old(events)@.len(),
            final(events)@.take(old(events)@.len() as int) == old(events)@,
            final(self)._videoMetadata == old(self)._videoMetadata,
            final(self)._audioMetadata == old(self)._audioMetadata,
            final(self)._naluLengthSize == old(self)._naluLengthSize,
            final(self)._mediaInfo == old(self)._mediaInfo,
            final(self)._lastVideoDimension == old(self)._lastVideoDimension,
            final(self)._hasAudio == old(self)._hasAudio,
            final(self)._hasVideo == old(self)._hasVideo,
            final(self)._timescale == old(self)._timescale,
            final(self)._duration == old(self)._duration,
            final(self)._referenceFrameRate == old(self)._referenceFrameRate,
            final(self)._browser == old(self)._browser,
            final(self)._videoInitialMetadataDispatched == (old(self)._videoInitialMetadataDispatched
                || (video && !initial_metadata_dispatched(*old(self)))),
            final(self)._audioInitialMetadataDispatched == (old(self)._audioInitialMetadataDispatched
                || (!video && !initial_metadata_dispatched(*old(self)))),
            samples_flushed(initial_metadata_dispatched(*old(self)), *old(self), *final(self), *old(remuxer),
                *final(remuxer), final(events)@.skip(old(events)@.len() as int)),
            *final(self) == (FLVDemuxer {
                _audioTrack: final(self)._audioTrack,
                _videoTrack: final(self)._videoTrack,
                _videoInitialMetadataDispatched: final(self)._videoInitialMetadataDispatched,
                _audioInitialMetadataDispatched: final(self)._audioInitialMetadataDispatched,
                ..*old(self)
            }),
            !initial_metadata_dispatched(*old(self)) ==> {
                &&& *final(remuxer) == *old(remuxer)
                &&& final(events)@ == old(events)@
                &&& if video {
                    *final(self) == (FLVDemuxer { _videoInitialMetadataDispatched: true, ..*old(self) })
                } else {
                    *final(self) == (FLVDemuxer { _audioInitialMetadataDispatched: true, ..*old(self) })
                }
            },
    {
        if self._isInitialMetadataDispatched() {
            // non-initial metadata: samples parsed so far go out first
            if self._dispatch && (self._audioTrack.length > 0 || self._videoTrack.length > 0) {
                self.hand_over(remuxer, events);
                proof {
                    lemma_handed_tracks(*old(self), *self, *old(remuxer), *remuxer, old(events)@, events@);
                }
            } else {
                assert(events@.skip(old(events)@.len() as int) =~= Seq::<DemuxEvent>::empty());
            }
        } else if video {
            self._videoInitialMetadataDispatched = true;
        } else {
            self._audioInitialMetadataDispatched = true;
        }
    }
}

// ---------------------------------------------------------------- the first SPS

/// The dimension and profile seen are those of this configuration: it changes nothing.
pub open spec fn same_video_config(last: Option<VideoDimension>, info: SPSInfo) -> bool {
    match last {
        Some(d) => d.width == info.codec_size.width && d.height == info.codec_size.height
            && d.profile@ == info.profile_string@ && d.level@ == info.level_string@,
        None => false,
    }
}

/// The video size differs from the last one seen.
pub open spec fn video_size_changed(last: Option<VideoDimension>, info: SPSInfo) -> bool {
    match last {
        Some(d) => d.width != info.codec_size.width || d.height != info.codec_size.height,
        None => false,
    }
}

/// The last video size after an SPS with info `info`: kept when a new configuration keeps
/// the size of the last one, else the size, profile and level of the SPS.
pub open spec fn last_dimension_set(last0: Option<VideoDimension>, newConfig: bool, info: SPSInfo, last1: Option<VideoDimension>) -> bool {
    if newConfig && last0 is Some && !video_size_changed(last0, info) {
        last1 == last0
    } else {
        last1 matches Some(d) && d.width == info.codec_size.width && d.height == info.codec_size.height
            && d.profile@ == info.profile_string@ && d.level@ == info.level_string@
    }
}

/// `m` is `m0` but for the fields an SPS sets.
pub open spec fn video_meta_sps_kept(m0: VideoTrackMetaData, m: VideoTrackMetaData) -> bool {
    m == (VideoTrackMetaData {
        meta: Meta {
            presentWidth: m.meta.presentWidth,
            presentHeight: m.meta.presentHeight,
            codecWidth: m.meta.codecWidth,
            codecHeight: m.meta.codecHeight,
            codec: m.meta.codec,
            ..m0.meta
        },
        profile: m.profile,
        level: m.level,
        bitDepth: m.bitDepth,
        chromaFormat: m.chromaFormat,
        sarRatio: m.sarRatio,
        frameRate: m.frameRate,
        refSampleDuration: m.refSampleDuration,
    })
}

/// The media information after the first SPS of a configuration: video fields and type.
pub open spec fn video_info_set(m0: MediaInfo, m1: MediaInfo, info: SPSInfo, f: FrameInfo, codec: Seq<char>) -> bool {
    &&& m1.width == Some(info.codec_size.width)
    &&& m1.height == Some(info.codec_size.height)
    &&& m1.fps == Some(f.fps)
    &&& m1.profile matches Some(p) && p@ == info.profile_string@
    &&& m1.level matches Some(l) && l@ == info.level_string@
    &&& m1.refFrames == Some(info.ref_frames)
    &&& m1.chromaFormat matches Some(c) && c@ == info.chroma_format_string@
    &&& m1.sarNum == Some(info.sar_ratio.width)
    &&& m1.sarDen == Some(info.sar_ratio.height)
    &&& m1.videoCodec matches Some(v) && v@ == codec
    &&& if m0.hasAudio == Some(true) {
        match m0.audioCodec {
            Some(a) => m1.mimeType matches Some(t) && t@ == flv_mime(codec + ","@ + a@),
            None => m1.mimeType == m0.mimeType,
        }
    } else {
        m1.mimeType matches Some(t) && t@ == flv_mime(codec)
    }
    &&& m1.duration == m0.duration
    &&& m1.hasAudio == m0.hasAudio
    &&& m1.hasVideo == m0.hasVideo
    &&& m1.audioCodec == m0.audioCodec
    &&& m1.audioDataRate == m0.audioDataRate
    &&& m1.videoDataRate == m0.videoDataRate
    &&& m1.audioSampleRate == m0.audioSampleRate
    &&& m1.audioChannelCount == m0.audioChannelCount
    &&& m1.metadata == m0.metadata
    &&& m1.hasKeyframesIndex == m0.hasKeyframesIndex
    &&& m1.keyframesIndex == m0.keyframesIndex
    &&& m1.segments == m0.segments
    &&& m1.segmentCount == m0.segmentCount
}

/// The events for a media information update.
pub open spec fn info_events(m: MediaInfo) -> Seq<DemuxEvent> {
    if spec_is_complete(&m) {
        seq![DemuxEvent::MediaInfo]
    } else {
        Seq::empty()
    }
}

fn copy_string(s: &String) -> (r: String)
    ensures
        r@ == s@,
{
    s.clone()
}

/// Puts what an SPS describes into video metadata `m`.
fn fill_sps_meta(m: &mut VideoTrackMetaData, info: &SPSInfo, frame: &FrameInfo, refd: u64, codec: &String)
    ensures
        video_meta_sps_kept(*old(m), *final(m)),
        final(m).meta.codecWidth == info.codec_size.width as u32,
        final(m).meta.codecHeight == info.codec_size.height as u32,
        final(m).meta.presentWidth == info.present_size.width as u32,
        final(m).meta.presentHeight == info.present_size.height as u32,
        final(m).profile@ == info.profile_string@,
        final(m).level@ == info.level_string@,
        final(m).bitDepth == info.bit_depth,
        final(m).chromaFormat == info.chroma_format,
        final(m).sarRatio == info.sar_ratio,
        final(m).frameRate == *frame,
        final(m).refSampleDuration == refd,
        final(m).meta.codec@ == codec@,
{
    m.meta.codecWidth = info.codec_size.width as u32;
    m.meta.codecHeight = info.codec_size.height as u32;
    m.meta.presentWidth = info.present_size.width as u32;
    m.meta.presentHeight = info.present_size.height as u32;
    m.profile = String::from_str(info.profile_string);
    m.level = copy_string(&info.level_string);
    m.bitDepth = info.bit_depth;
    m.chromaFormat = info.chroma_format;
    m.sarRatio = Size { width: info.sar_ratio.width, height: info.sar_ratio.height };
    m.frameRate = copy_frame(frame);
    m.refSampleDuration = refd;
    m.meta.codec = copy_string(codec);
}

/// Puts the video fields an SPS describes, and the MIME type, into media information `mi`.
fn fill_video_info(mi: &mut MediaInfo, info: &SPSInfo, frame: &FrameInfo, codec: String)
    ensures
        video_info_set(*old(mi), *final(mi), *info, *frame, codec@),
{
    let mime = if mi.hasAudio == Some(true) {
        match &mi.audioCodec {
            Some(a) => Some(flv_mime_string(&codec, Some(a))),
            None => None,
        }
    } else {
        Some(flv_mime_string(&codec, None))
    };
    match mime {
        Some(t) => {
            mi.mimeType = Some(t);
        },
        None => {},
    }
    mi.width = Some(info.codec_size.width);
    mi.height = Some(info.codec_size.height);
    mi.fps = Some(frame.fps);
    mi.profile = Some(String::from_str(info.profile_string));
    mi.level = Some(copy_string(&info.level_string));
    mi.refFrames = Some(info.ref_frames);
    mi.chromaFormat = Some(String::from_str(info.chroma_format_string));
    mi.sarNum = Some(info.sar_ratio.width);
    mi.sarDen = Some(info.sar_ratio.height);
    mi.videoCodec = Some(codec);
}

impl FLVDemuxer {
    /// Takes the first SPS of a configuration: `false` when the configuration repeats the
    /// last one (nothing changes then).
    #[verifier::rlimit(60)]
    #[verifier::spinoff_prover]
    fn apply_first_sps(&mut self, info: SPSInfo, sps: &[u8], newConfig: bool, events: &mut Vec<DemuxEvent>) -> (keep: bool)
        requires
            old(self).wf(),
            old(self)._videoMetadata is Some,
            sps@.len() >= 4,
        ensures
            final(self).wf(),
            keep == !(newConfig && same_video_config(old(self)._lastVideoDimension, info)),
            !keep ==> *final(self) == *old(self) && final(events)@ == old(events)@,
            keep ==> {
                let m0 = old(self)._videoMetadata->Some_0;
                let f = chosen_frame_rate(info.frame_rate, old(self)._referenceFrameRate);
                let changed = newConfig && video_size_changed(old(self)._lastVideoDimension, info);
                let res = if changed {
                    seq![DemuxEvent::VideoResolutionChanged { width: info.codec_size.width, height: info.codec_size.height }]
                } else {
                    Seq::<DemuxEvent>::empty()
                };
                &&& final(self)._videoMetadata matches Some(m)
                &&& sps_applied(m, info, sps@, old(self)._timescale, old(self)._referenceFrameRate)
                &&& video_meta_sps_kept(m0, m)
                &&& video_info_set(old(self)._mediaInfo, final(self)._mediaInfo, info, f, avc1_codec(sps@))
                &&& final(events)@ == old(events)@ + res + info_events(final(self)._mediaInfo)
                &&& last_dimension_set(old(self)._lastVideoDimension, newConfig, info, final(self)._lastVideoDimension)
                &&& *final(self) == (FLVDemuxer {
                    _videoMetadata: final(self)._videoMetadata,
                    _mediaInfo: final(self)._mediaInfo,
                    _lastVideoDimension: final(self)._lastVideoDimension,
                    ..*old(self)
                })
            },
    {
        let w = info.codec_size.width;
        let h = info.codec_size.height;
        let ghost e0 = events@;
        let mut changed = false;
        let mut update_last = true;
        match &self._lastVideoDimension {
            Some(d) => {
                if newConfig {
                    if d.width != w || d.height != h {
                        changed = true;
                    } else {
                        if str_eq(d.profile.as_str(), info.profile_string) && d.level == info.level_string {
                            // the same configuration sent again
                            return false;
                        }
                        update_last = false;
                    }
                }
            },
            None => {},
        }
        if update_last {
            self._lastVideoDimension = Some(
                VideoDimension {
                    width: w,
                    height: h,
                    profile: String::from_str(info.profile_string),
                    level: copy_string(&info.level_string),
                },
            );
        }
        if changed {
            events.push(DemuxEvent::VideoResolutionChanged { width: w, height: h });
        }
        let fr = &info.frame_rate;
        let frame = if !fr.fixed || fr.fps_num == 0 || fr.fps_den == 0 {
            copy_frame(&self._referenceFrameRate)
        } else {
            copy_frame(fr)
        };
        let refd = frame_duration_exec(self._timescale, &frame);
        let codec = avc1_codec_string(sps);
        let mut m = match self._videoMetadata.take() {
            Some(m) => m,
            None => {
                // unreachable: the caller made the metadata
                return false;
            },
        };
        fill_sps_meta(&mut m, &info, &frame, refd, &codec);
        fill_video_info(&mut self._mediaInfo, &info, &frame, codec);
        self._videoMetadata = Some(m);
        if self._mediaInfo.isComplete() {
            events.push(DemuxEvent::MediaInfo);
        }
        true
    }
}

fn str_eq(a: &str, b: &str) -> (r: bool)
    ensures
        r == (a@ == b@),
{
    let n = a.unicode_len();
    if n != b.unicode_len() {
        return false;
    }
    let mut i: usize = 0;
    while i < n
        invariant
            n == a@.len(),
            n == b@.len(),
            i <= n,
            forall|k: int| 0 <= k < i ==> a@[k] == b@[k],
        decreases n - i,
    {
        if a.get_char(i) != b.get_char(i) {
            return false;
        }
        i = i + 1;
    }
    assert(a@ =~= b@);
    true
}

fn frame_duration_exec(timescale: u32, f: &FrameInfo) -> (r: u64)
    ensures
        r == frame_duration(timescale, *f),
{
    if f.fps_num == 0 {
        return 0;
    }
    let t = timescale as u128;
    let den = f.fps_den as u128;
    assert(t * den <= 0xffff_ffff * 0xffff_ffff_ffff_ffff) by (nonlinear_arith)
        requires t <= 0xffff_ffff, den <= 0xffff_ffff_ffff_ffff;
    let d = t * den / (f.fps_num as u128);
    if d > 0x1000_0000_0000 {
        0x1000_0000_0000
    } else {
        d as u64
    }
}

// ---------------------------------------------------------------- the record

/// A record was fully parsed for this track before.
pub open spec fn has_avc_config(d: FLVDemuxer) -> bool {
    d._videoMetadata matches Some(m) && m.meta.avcc@.len() > 0
}

/// The configuration the SPS syntax `syn` describes repeats the last one seen.
pub open spec fn same_video_syntax(last: Option<VideoDimension>, syn: SpsSyntax) -> bool {
    match last {
        Some(d) => d.width == codec_width_of(syn) && d.height == codec_height_of(syn)
            && d.profile@ == profile_string_of(syn.profile_idc) && d.level@ == level_string_of(syn.level_idc),
        None => false,
    }
}

/// The media information once a first configuration record marks the stream as having
/// video (unless that was overridden).
pub open spec fn video_begun_info(d: FLVDemuxer) -> MediaInfo {
    if d._videoMetadata is None && !d._hasVideo && !d._hasVideoFlagOverrided {
        MediaInfo { hasVideo: Some(true), ..d._mediaInfo }
    } else {
        d._mediaInfo
    }
}

/// Every track had sent its initial metadata when a configuration record came to `d0`
/// (counting the video the record announces).
pub open spec fn video_begun_dispatched(d0: FLVDemuxer) -> bool {
    let hv = d0._hasVideo || (d0._videoMetadata is None && !d0._hasVideoFlagOverrided);
    initial_metadata_dispatched(FLVDemuxer { _hasVideo: hv, ..d0 })
}

/// The video track was announced: the stream now has video (unless that was overridden),
/// and a first announcement marks the video metadata as sent; the queued samples stay
/// unless every track had sent its initial metadata before.
pub open spec fn video_announced(d0: FLVDemuxer, d1: FLVDemuxer) -> bool {
    let hv = d0._hasVideo || (d0._videoMetadata is None && !d0._hasVideoFlagOverrided);
    let before = video_begun_dispatched(d0);
    &&& d1._hasVideo == hv
    &&& d1._hasAudio == d0._hasAudio
    &&& d1._audioInitialMetadataDispatched == d0._audioInitialMetadataDispatched
    &&& d1._videoInitialMetadataDispatched == (d0._videoInitialMetadataDispatched || !before)
    &&& !before ==> d1._videoTrack == d0._videoTrack && d1._audioTrack == d0._audioTrack
}

/// The events the first SPS of a record reports: a change of the video size (for a new
/// configuration), then the media information when it is complete.
pub open spec fn first_sps_events(d0: FLVDemuxer, info: SPSInfo, mi1: MediaInfo) -> Seq<DemuxEvent> {
    let changed = has_avc_config(d0) && video_size_changed(d0._lastVideoDimension, info);
    (if changed {
        seq![DemuxEvent::VideoResolutionChanged { width: info.codec_size.width, height: info.codec_size.height }]
    } else {
        Seq::<DemuxEvent>::empty()
    }) + info_events(mi1)
}

/// The first SPS `en` (start and length in `buf`) of a record taken by demuxer `d0`: the
/// video metadata `m`, the media information `mi1` and the last video size `last` hold what
/// it describes, and `ev` are the events it reported.
#[verifier::opaque]
pub open spec fn first_sps_taken(d0: FLVDemuxer, m: VideoTrackMetaData, mi1: MediaInfo, last: Option<VideoDimension>, ev: Seq<DemuxEvent>, buf: Seq<u8>, en: (int, int, int)) -> bool {
    let sps = buf.subrange(en.1, en.1 + en.2);
    exists|info: SPSInfo| {
        &&& #[trigger] sps_info_of(info, sps_syntax_at(buf, en.1, en.2)->Ok_0.0)
        &&& sps_applied(m, info, sps, d0._timescale, d0._referenceFrameRate)
        &&& video_info_set(d0._mediaInfo, mi1, info, chosen_frame_rate(info.frame_rate, d0._referenceFrameRate), avc1_codec(sps))
        &&& last_dimension_set(d0._lastVideoDimension, has_avc_config(d0), info, last)
        &&& ev == first_sps_events(d0, info, mi1)
    }
}

/// `m` is `m0` but for its `avcC` record.
pub open spec fn video_meta_kept(m0: VideoTrackMetaData, m: VideoTrackMetaData) -> bool {
    m == (VideoTrackMetaData { meta: Meta { avcc: m.meta.avcc, ..m0.meta }, ..m0 })
}

proof fn lemma_first_sps_moved(
    da: FLVDemuxer,
    db: FLVDemuxer,
    m: VideoTrackMetaData,
    mi: MediaInfo,
    last: Option<VideoDimension>,
    ev: Seq<DemuxEvent>,
    buf: Seq<u8>,
    en: (int, int, int),
)
    requires
        first_sps_taken(da, m, mi, last, ev, buf, en),
        da._timescale == db._timescale,
        da._referenceFrameRate == db._referenceFrameRate,
        da._mediaInfo == db._mediaInfo,
        da._lastVideoDimension == db._lastVideoDimension,
        has_avc_config(da) == has_avc_config(db),
    ensures
        first_sps_taken(db, m, mi, last, ev, buf, en),
{
    reveal(first_sps_taken);
    let sps = buf.subrange(en.1, en.1 + en.2);
    let info = choose|info: SPSInfo| {
        &&& #[trigger] sps_info_of(info, sps_syntax_at(buf, en.1, en.2)->Ok_0.0)
        &&& sps_applied(m, info, sps, da._timescale, da._referenceFrameRate)
        &&& video_info_set(da._mediaInfo, mi, info, chosen_frame_rate(info.frame_rate, da._referenceFrameRate), avc1_codec(sps))
        &&& last_dimension_set(da._lastVideoDimension, has_avc_config(da), info, last)
        &&& ev == first_sps_events(da, info, mi)
    };
    assert(first_sps_events(da, info, mi) == first_sps_events(db, info, mi));
}

/// SPS entry 0 of a record at `[off, off + size)`: `None` when its length cannot be read or
/// it runs past the record, `Some(None)` when it is empty, else its start and length.
pub open spec fn avcc_entry0(buf: Seq<u8>, off: int, size: int) -> Option<Option<(int, int)>> {
    if size < 8 {
        None
    } else {
        let len = be16_at(buf, off + 6);
        if len == 0 {
            Some(None)
        } else if 8 + len > size {
            None
        } else {
            Some(Some((off + 8, len)))
        }
    }
}

/// SPS entry 0 cannot be taken: it cannot be read, does not parse, or is shorter than its
/// four header bytes.
pub open spec fn avcc_entry0_broken(buf: Seq<u8>, off: int, size: int) -> bool {
    match avcc_entry0(buf, off, size) {
        None => true,
        Some(None) => false,
        Some(Some((s, l))) => sps_syntax_at(buf, s, l) is Err || l < 4,
    }
}

/// SPS entry 0 repeats the configuration demuxer `d` had.
pub open spec fn avcc_entry0_same(buf: Seq<u8>, off: int, size: int, d: FLVDemuxer) -> bool {
    match avcc_entry0(buf, off, size) {
        Some(Some((s, l))) => {
            &&& sps_syntax_at(buf, s, l) is Ok
            &&& l >= 4
            &&& has_avc_config(d)
            &&& same_video_syntax(d._lastVideoDimension, sps_syntax_at(buf, s, l)->Ok_0.0)
        },
        _ => false,
    }
}

/// What SPS entry 0 did to the demuxer `db` that had begun a record: `d1` holds the video
/// metadata, media information and last video size it describes, and `ev` are the events
/// it reported; without an entry 0 nothing changed.
pub open spec fn entry0_done(db: FLVDemuxer, d1: FLVDemuxer, ev: Seq<DemuxEvent>, buf: Seq<u8>, off: int, size: int) -> bool {
    &&& d1 == (FLVDemuxer {
        _videoMetadata: d1._videoMetadata,
        _mediaInfo: d1._mediaInfo,
        _lastVideoDimension: d1._lastVideoDimension,
        ..db
    })
    &&& match avcc_entry0(buf, off, size) {
        Some(Some((s, l))) => {
            &&& d1._videoMetadata matches Some(m)
            &&& video_meta_sps_kept(db._videoMetadata->Some_0, m)
            &&& first_sps_taken(db, m, d1._mediaInfo, d1._lastVideoDimension, ev, buf, (0, s, l))
        },
        _ => d1 == db && ev.len() == 0,
    }
}

/// Whether a record makes a stream have video: it does unless that was overridden or the
/// video metadata already existed.
pub open spec fn video_begun_has(d0: FLVDemuxer) -> bool {
    d0._hasVideo || (d0._videoMetadata is None && !d0._hasVideoFlagOverrided)
}

/// Demuxer `d0` once a record with NAL length size `ls` began, but for its video metadata.
pub open spec fn video_begun_state(d0: FLVDemuxer, ls: u8) -> FLVDemuxer {
    FLVDemuxer { _mediaInfo: video_begun_info(d0), _hasVideo: video_begun_has(d0), _naluLengthSize: ls, ..d0 }
}

/// The video metadata once a record began: the one there was, or fresh metadata.
pub open spec fn begun_meta(d0: FLVDemuxer, vm: Option<VideoTrackMetaData>) -> bool {
    match d0._videoMetadata {
        Some(m0) => vm == Some(m0),
        None => vm matches Some(m) && fresh_video_meta(m, d0),
    }
}

/// `d1` is `d0` once a record with NAL length size `ls` began.
pub open spec fn video_begun(d0: FLVDemuxer, d1: FLVDemuxer, ls: u8) -> bool {
    &&& d1 == (FLVDemuxer { _videoMetadata: d1._videoMetadata, ..video_begun_state(d0, ls) })
    &&& begun_meta(d0, d1._videoMetadata)
}

/// `m` keeps, outside what an SPS sets, the video metadata a record began with.
pub open spec fn meta_from_begun(d0: FLVDemuxer, m: VideoTrackMetaData) -> bool {
    match d0._videoMetadata {
        Some(m0) => video_meta_sps_kept(m0, m),
        None => fresh_meta_base(m, d0),
    }
}

/// What SPS entry 0 of a record with NAL length size `ls` did to demuxer `d0`: `d1` is the
/// begun demuxer with the video metadata, media information and last video size the SPS
/// describes, and `ev` are the events it reported; without an entry 0 only the record began.
pub open spec fn entry0_applied(d0: FLVDemuxer, ls: u8, d1: FLVDemuxer, ev: Seq<DemuxEvent>, buf: Seq<u8>, off: int, size: int) -> bool {
    let db = video_begun_state(d0, ls);
    &&& d1 == (FLVDemuxer {
        _videoMetadata: d1._videoMetadata,
        _mediaInfo: d1._mediaInfo,
        _lastVideoDimension: d1._lastVideoDimension,
        ..db
    })
    &&& match avcc_entry0(buf, off, size) {
        Some(Some((s, l))) => {
            &&& d1._videoMetadata matches Some(m)
            &&& meta_from_begun(d0, m)
            &&& first_sps_taken(db, m, d1._mediaInfo, d1._lastVideoDimension, ev, buf, (0, s, l))
        },
        _ => {
            &&& begun_meta(d0, d1._videoMetadata)
            &&& d1._mediaInfo == db._mediaInfo
            &&& d1._lastVideoDimension == d0._lastVideoDimension
            &&& ev.len() == 0
        },
    }
}

proof fn lemma_entry0_begun(d0: FLVDemuxer, ls: u8, db: FLVDemuxer, d1: FLVDemuxer, ev: Seq<DemuxEvent>, buf: Seq<u8>, off: int, size: int)
    requires
        video_begun(d0, db, ls),
        entry0_done(db, d1, ev, buf, off, size),
    ensures
        entry0_applied(d0, ls, d1, ev, buf, off, size),
{
    let ds = video_begun_state(d0, ls);
    assert(has_avc_config(db) == has_avc_config(ds));
    match avcc_entry0(buf, off, size) {
        Some(Some((s, l))) => {
            let m = d1._videoMetadata->Some_0;
            lemma_first_sps_moved(db, ds, m, d1._mediaInfo, d1._lastVideoDimension, ev, buf, (0, s, l));
        },
        _ => {},
    }
}

/// `done` followed by the entries of `rest`, if any.
pub open spec fn prepend_entries(done: Seq<(int, int, int)>, rest: Option<(Seq<(int, int, int)>, int)>) -> Option<(Seq<(int, int, int)>, int)> {
    match rest {
        None => None,
        Some((r, e)) => Some((done + r, e)),
    }
}

/// Every SPS entry parses.
pub open spec fn entries_parse(buf: Seq<u8>, entries: Seq<(int, int, int)>) -> bool {
    forall|j: int| 0 <= j < entries.len() ==> (#[trigger] sps_syntax_at(buf, entries[j].1, entries[j].2)) is Ok
}

/// The SPS entries of the record at `[off, off + size)` with `n` SPS are taken by a
/// demuxer in state `d`: every entry is in the record and parses, and the first SPS (when
/// it is entry 0) has its four header bytes and does not repeat the last configuration.
pub open spec fn avcc_sps_ok(buf: Seq<u8>, off: int, size: int, n: int, d: FLVDemuxer) -> bool {
    match avcc_sps_walk(buf, off, size, 6, 0, n) {
        None => false,
        Some((entries, e)) => {
            &&& entries_parse(buf, entries)
            &&& (entries.len() > 0 && entries[0].0 == 0) ==> {
                &&& entries[0].2 >= 4
                &&& !(has_avc_config(d) && same_video_syntax(d._lastVideoDimension, sps_syntax_at(buf, entries[0].1, entries[0].2)->Ok_0.0))
            }
        },
    }
}

/// Where the SPS entries end.
pub open spec fn avcc_sps_end(buf: Seq<u8>, off: int, size: int, n: int) -> int {
    avcc_sps_walk(buf, off, size, 6, 0, n)->Some_0.1
}

/// The PPS count after offset `e` is non-zero and every PPS length can be read.
pub open spec fn avcc_pps_ok(buf: Seq<u8>, off: int, size: int, e: int) -> bool {
    &&& e + 1 <= size
    &&& buf[off + e] != 0
    &&& avcc_pps_walk(buf, off, size, e + 1, buf[off + e] as int)
}

/// The record at `[off, off + size)` with `n` SPS is taken whole by a demuxer in state `d`.
pub open spec fn avcc_complete(buf: Seq<u8>, off: int, size: int, n: int, d: FLVDemuxer) -> bool {
    avcc_sps_ok(buf, off, size, n, d) && avcc_pps_ok(buf, off, size, avcc_sps_end(buf, off, size, n))
}

/// What an AVCDecoderConfigurationRecord at `[off, off + size)` does to demuxer `d0`,
/// remuxer `r0` and events `e0`.
pub open spec fn avc_config_taken(
    d0: FLVDemuxer,
    d1: FLVDemuxer,
    r0: MP4Remuxer,
    r1: MP4Remuxer,
    e0: Seq<DemuxEvent>,
    e1: Seq<DemuxEvent>,
    buf: Seq<u8>,
    off: int,
    size: int,
) -> bool {
    match avcc_head(buf, off, size) {
        AvccHead::TooShort => {
            &&& d1 == d0
            &&& r1 == r0
            &&& e1 == e0
        },
        AvccHead::BadVersion => {
            &&& video_begun(d0, d1, d0._naluLengthSize)
            &&& e1 == e0.push(DemuxEvent::Error(DemuxError::InvalidAvcConfigRecord))
            &&& r1 == r0
        },
        AvccHead::StrangeLength(ls) => {
            &&& video_begun(d0, d1, ls)
            &&& e1 == e0.push(DemuxEvent::Error(DemuxError::StrangeNaluLengthSize((ls - 1) as u8)))
            &&& r1 == r0
        },
        AvccHead::NoSps(ls) => {
            &&& video_begun(d0, d1, ls)
            &&& e1 == e0.push(DemuxEvent::Error(DemuxError::NoSps))
            &&& r1 == r0
        },
        AvccHead::Good(ls, n) => {
            if avcc_entry0_broken(buf, off, size) {
                &&& video_begun(d0, d1, ls)
                &&& e1 == e0.push(DemuxEvent::Error(DemuxError::TruncatedAvcConfigRecord))
                &&& r1 == r0
            } else if avcc_entry0_same(buf, off, size, d0) {
                &&& video_begun(d0, d1, ls)
                &&& e1 == e0
                &&& r1 == r0
            } else if !avcc_complete(buf, off, size, n as int, d0) {
                &&& r1 == r0
                &&& e1.len() > e0.len()
                &&& e1.last() == DemuxEvent::Error(avcc_late_error(buf, off, size, n as int, d0))
                &&& entry0_applied(d0, ls, d1, e1.subrange(e0.len() as int, e1.len() - 1), buf, off, size)
            } else {
                &&& d1._videoMetadata matches Some(m)
                &&& exists|dx: FLVDemuxer, ev: Seq<DemuxEvent>, fl: Seq<DemuxEvent>, rf: MP4Remuxer| {
                    &&& #[trigger] entry0_applied(d0, ls, dx, ev, buf, off, size)
                    &&& #[trigger] samples_flushed(video_begun_dispatched(d0), d0, d1, r0, rf, fl)
                    &&& dx._videoMetadata matches Some(mx)
                    &&& video_meta_kept(mx, m)
                    &&& d1 == (FLVDemuxer {
                        _videoMetadata: d1._videoMetadata,
                        _dispatch: false,
                        _videoInitialMetadataDispatched: d1._videoInitialMetadataDispatched,
                        _audioTrack: d1._audioTrack,
                        _videoTrack: d1._videoTrack,
                        ..dx
                    })
                    &&& e1 == e0 + ev + fl + seq![e1.last()]
                    &&& r1 == (MP4Remuxer { _videoMeta: r1._videoMeta, ..rf })
                }
                &&& video_announced(d0, d1)
                &&& m.meta.avcc@ == buf.subrange(off, off + size)
                &&& e1.len() > 0
                &&& e1.last() matches DemuxEvent::Init(seg)
                &&& r1._videoMeta matches Some(rm)
                &&& video_meta_same(rm, m)
                &&& init_segment_is(seg, rm.meta, false)
            }
        },
    }
}

/// The error a record reports when its SPS entry 0 was taken but the rest of it is not:
/// a later SPS entry that cannot be read or parsed, or a missing or cut PPS list.
pub open spec fn avcc_late_error(buf: Seq<u8>, off: int, size: int, n: int, d: FLVDemuxer) -> DemuxError {
    if !avcc_sps_ok(buf, off, size, n, d) {
        DemuxError::TruncatedAvcConfigRecord
    } else {
        let e = avcc_sps_end(buf, off, size, n);
        if e + 1 <= size && buf[off + e] == 0 {
            DemuxError::NoPps
        } else {
            DemuxError::TruncatedAvcConfigRecord
        }
    }
}

/// The video metadata made for a first record: track id, timescale, duration, and the
/// reference frame rate; all else empty.
pub open spec fn fresh_video_meta(m: VideoTrackMetaData, d: FLVDemuxer) -> bool {
    &&& fresh_meta_base(m, d)
    &&& m.meta.presentWidth == 0
    &&& m.meta.presentHeight == 0
    &&& m.meta.codecWidth == 0
    &&& m.meta.codecHeight == 0
    &&& m.meta.codec@.len() == 0
    &&& m.profile@.len() == 0
    &&& m.level@.len() == 0
    &&& m.bitDepth == 0
    &&& m.chromaFormat == 0
    &&& m.sarRatio == (Size { width: 0, height: 0 })
    &&& m.frameRate == d._referenceFrameRate
    &&& m.refSampleDuration == 0
}

/// The fields of fresh video metadata that an SPS does not set: track id, timescale,
/// duration, and no audio fields or records.
pub open spec fn fresh_meta_base(m: VideoTrackMetaData, d: FLVDemuxer) -> bool {
    &&& m.meta.id == d._videoTrack.id
    &&& m.meta._type == TrackType::Video
    &&& m.meta.timescale == d._timescale
    &&& m.meta.duration == d._duration as u32
    &&& m.meta.channelCount == 0
    &&& m.meta.audioSampleRate == 0
    &&& m.meta.config@.len() == 0
    &&& m.meta.avcc@.len() == 0
}

/// NAL length size and SPS count of a good record header.
#[derive(PartialEq, Eq, Structural, Clone, Copy)]
pub struct AvccCounts {
    pub ls: u8,
    pub count: u8,
}

/// A header that was read: not too short, and a NAL length size of at least 1.
pub open spec fn head_read(head: AvccHead) -> bool {
    match head {
        AvccHead::TooShort => false,
        AvccHead::BadVersion => true,
        AvccHead::StrangeLength(x) => 1 <= x <= 4,
        AvccHead::NoSps(x) => 1 <= x <= 4,
        AvccHead::Good(x, _n) => 1 <= x <= 4,
    }
}

/// What `avcc_begin` does: the video metadata exists afterwards (made fresh when there
/// was none), the NAL length size is set unless the version is bad, and a bad header is
/// reported.
pub open spec fn avcc_begun(d0: FLVDemuxer, d1: FLVDemuxer, head: AvccHead, e0: Seq<DemuxEvent>, e1: Seq<DemuxEvent>, r: Option<AvccCounts>) -> bool {
    match head {
        AvccHead::BadVersion => r is None && video_begun(d0, d1, d0._naluLengthSize)
            && e1 == e0.push(DemuxEvent::Error(DemuxError::InvalidAvcConfigRecord)),
        AvccHead::StrangeLength(ls) => r is None && video_begun(d0, d1, ls)
            && e1 == e0.push(DemuxEvent::Error(DemuxError::StrangeNaluLengthSize((ls - 1) as u8))),
        AvccHead::NoSps(ls) => r is None && video_begun(d0, d1, ls)
            && e1 == e0.push(DemuxEvent::Error(DemuxError::NoSps)),
        AvccHead::Good(ls, n) => r == Some(AvccCounts { ls, count: n }) && video_begun(d0, d1, ls) && e1 == e0,
        AvccHead::TooShort => true,
    }
}

/// Checks the picture parameter sets after the SPS entries, which end at `e`.
fn avcc_pps_check(buf: &[u8], off: usize, size: usize, e: usize) -> (r: Result<(), DemuxError>)
    requires
        off + size <= buf@.len(),
        8 * buf@.len() <= usize::MAX,
        e <= size,
    ensures
        r is Ok <==> avcc_pps_ok(buf@, off as int, size as int, e as int),
        r is Err ==> r->Err_0 == (if e + 1 <= size && buf@[off + e] == 0 {
            DemuxError::NoPps
        } else {
            DemuxError::TruncatedAvcConfigRecord
        }),
{
    if size - e < 1 {
        return Err(DemuxError::TruncatedAvcConfigRecord);
    }
    let ppsCount = buf[off + e];
    if ppsCount == 0 {
        return Err(DemuxError::NoPps);
    }
    let ghost bv = buf@;
    let mut offset = e + 1;
    let mut j: u8 = 0;
    while j < ppsCount
        invariant
            off + size <= buf@.len(),
            8 * buf@.len() <= usize::MAX,
            bv == buf@,
            j <= ppsCount,
            offset <= size,
            ppsCount == buf@[off + e],
            avcc_pps_walk(bv, off as int, size as int, e + 1, ppsCount as int) == avcc_pps_walk(bv, off as int, size as int, offset as int, (ppsCount - j) as int),
        decreases ppsCount - j,
    {
        if size - offset < 2 {
            return Err(DemuxError::TruncatedAvcConfigRecord);
        }
        let len = read_be_u16(&buf[off + offset..off + offset + 2]) as usize;
        let ghost o0 = offset as int;
        proof {
            assert(len == be16_at(bv, off + offset));
            assert(avcc_pps_walk(bv, off as int, size as int, o0, (ppsCount - j) as int)
                == avcc_pps_walk(bv, off as int, size as int, o0 + 2 + len, (ppsCount - j - 1) as int));
        }
        offset = offset + 2;
        if len > size - offset {
            if j + 1 < ppsCount {
                proof {
                    assert(avcc_pps_walk(bv, off as int, size as int, (offset + len) as int, (ppsCount - j - 1) as int) == false);
                }
                return Err(DemuxError::TruncatedAvcConfigRecord);
            }
            offset = size;
        } else {
            offset = offset + len;
        }
        j = j + 1;
    }
    Ok(())
}

impl FLVDemuxer {
    /// Makes the video metadata when there is none, sets the NAL length size, and reports
    /// a bad record header.
    fn avcc_begin(&mut self, hd: AvccHead, events: &mut Vec<DemuxEvent>) -> (r: Option<AvccCounts>)
        requires
            old(self).wf(),
            head_read(hd),
        ensures
            final(self).wf(),
            avcc_begun(*old(self), *final(self), hd, old(events)@, final(events)@, r),
    {
        if self._videoMetadata.is_none() {
            if !self._hasVideo && !self._hasVideoFlagOverrided {
                self._hasVideo = true;
                self._mediaInfo.hasVideo = Some(true);
            }
            self._videoMetadata = Some(
                VideoTrackMetaData {
                    meta: Meta {
                        id: self._videoTrack.id,
                        _type: TrackType::Video,
                        timescale: self._timescale,
                        duration: self._duration as u32,
                        presentWidth: 0,
                        presentHeight: 0,
                        codecWidth: 0,
                        codecHeight: 0,
                        channelCount: 0,
                        audioSampleRate: 0,
                        codec: String::new(),
                        config: Vec::new(),
                        avcc: Vec::new(),
                    },
                    profile: String::new(),
                    level: String::new(),
                    bitDepth: 0,
                    chromaFormat: 0,
                    sarRatio: Size { width: 0, height: 0 },
                    frameRate: copy_frame(&self._referenceFrameRate),
                    refSampleDuration: 0,
                },
            );
            proof {
                let m = self._videoMetadata->Some_0;
                assert(m.meta.config@.len() == 0);
                assert(m.meta.avcc@.len() == 0);
                assert(crate::flv_demuxer::video_metadata_ok(m));
            }
        }
        assert(self.wf());
        match hd {
            AvccHead::BadVersion => {
                events.push(DemuxEvent::Error(DemuxError::InvalidAvcConfigRecord));
                None
            },
            AvccHead::StrangeLength(ls) => {
                self._naluLengthSize = ls;
                events.push(DemuxEvent::Error(DemuxError::StrangeNaluLengthSize(ls - 1)));
                None
            },
            AvccHead::NoSps(ls) => {
                self._naluLengthSize = ls;
                events.push(DemuxEvent::Error(DemuxError::NoSps));
                None
            },
            AvccHead::Good(ls, n) => {
                self._naluLengthSize = ls;
                Some(AvccCounts { ls, count: n })
            },
            AvccHead::TooShort => None,
        }
    }

    /// Reads the SPS entries: each is parsed and the first one taken. `Some` with the offset
    /// after them when all went well.
    #[verifier::rlimit(80)]
    #[verifier::spinoff_prover]
    fn avcc_sps_entries(
        &mut self,
        arrayBuffer: &[u8],
        dataOffset: usize,
        dataSize: usize,
        spsCount: u8,
        newAVCDecoderConfig: bool,
        events: &mut Vec<DemuxEvent>,
    ) -> (r: Option<usize>)
        requires
            old(self).wf(),
            old(self)._videoMetadata is Some,
            dataOffset + dataSize <= arrayBuffer@.len(),
            8 * arrayBuffer@.len() <= usize::MAX,
            6 <= dataSize,
            newAVCDecoderConfig == has_avc_config(*old(self)),
            spsCount >= 1,
        ensures
            final(self).wf(),
            final(events)@.len() >= old(events)@.len(),
            final(events)@.take(old(events)@.len() as int) == old(events)@,
            match r {
                Some(e) => {
                    &&& avcc_sps_ok(arrayBuffer@, dataOffset as int, dataSize as int, spsCount as int, *old(self))
                    &&& e == avcc_sps_end(arrayBuffer@, dataOffset as int, dataSize as int, spsCount as int)
                    &&& e <= dataSize
                    &&& !avcc_entry0_broken(arrayBuffer@, dataOffset as int, dataSize as int)
                    &&& !avcc_entry0_same(arrayBuffer@, dataOffset as int, dataSize as int, *old(self))
                    &&& entry0_done(*old(self), *final(self), final(events)@.skip(old(events)@.len() as int),
                        arrayBuffer@, dataOffset as int, dataSize as int)
                },
                None => {
                    &&& !avcc_sps_ok(arrayBuffer@, dataOffset as int, dataSize as int, spsCount as int, *old(self))
                    &&& if avcc_entry0_broken(arrayBuffer@, dataOffset as int, dataSize as int) {
                        &&& *final(self) == *old(self)
                        &&& final(events)@ == old(events)@.push(DemuxEvent::Error(DemuxError::TruncatedAvcConfigRecord))
                    } else if avcc_entry0_same(arrayBuffer@, dataOffset as int, dataSize as int, *old(self)) {
                        &&& *final(self) == *old(self)
                        &&& final(events)@ == old(events)@
                    } else {
                        &&& final(events)@.len() > old(events)@.len()
                        &&& final(events)@.last() == DemuxEvent::Error(DemuxError::TruncatedAvcConfigRecord)
                        &&& entry0_done(*old(self), *final(self),
                            final(events)@.subrange(old(events)@.len() as int, final(events)@.len() - 1),
                            arrayBuffer@, dataOffset as int, dataSize as int)
                    }
                },
            },
    {
        let ghost buf = arrayBuffer@;
        let ghost off = dataOffset as int;
        let ghost size = dataSize as int;
        let ghost n = spsCount as int;
        let ghost whole = avcc_sps_walk(buf, off, size, 6, 0, n);
        let ghost mut done: Seq<(int, int, int)> = Seq::empty();
        let ghost d0 = *old(self);
        let ghost e0 = old(events)@;
        assert(whole == prepend_entries(done, avcc_sps_walk(buf, off, size, 6, 0, n))) by {
            match whole {
                None => {},
                Some((w, e)) => {
                    assert(done + w =~= w);
                },
            }
        }
        let mut offset: usize = 6;
        let mut i: u8 = 0;
        while i < spsCount
            invariant
                dataOffset + dataSize <= arrayBuffer@.len(),
                8 * arrayBuffer@.len() <= usize::MAX,
                buf == arrayBuffer@,
                off == dataOffset,
                size == dataSize,
                n == spsCount,
                i <= spsCount,
                offset <= dataSize,
                whole == avcc_sps_walk(buf, off, size, 6, 0, n),
                whole == prepend_entries(done, avcc_sps_walk(buf, off, size, offset as int, i as int, n - i)),
                entries_parse(buf, done),
                forall|j: int| 0 <= j < done.len() ==> 0 <= (#[trigger] done[j]).0 < i,
                done.len() > 0 && done[0].0 == 0 ==> done[0].2 >= 4 && !(has_avc_config(d0)
                    && same_video_syntax(d0._lastVideoDimension, sps_syntax_at(buf, done[0].1, done[0].2)->Ok_0.0)),
                self.wf(),
                self._videoMetadata is Some,
                newAVCDecoderConfig == has_avc_config(d0),
                d0 == *old(self),
                e0 == old(events)@,
                i == 0 ==> offset == 6 && *self == d0 && events@ == e0,
                i > 0 ==> !avcc_entry0_broken(buf, off, size) && !avcc_entry0_same(buf, off, size, d0)
                    && entry0_done(d0, *self, events@.skip(e0.len() as int), buf, off, size),
                events@.len() >= e0.len(),
                events@.take(e0.len() as int) == e0,
            decreases spsCount - i,
        {
            let ghost ep = events@;
            if dataSize - offset < 2 {
                events.push(DemuxEvent::Error(DemuxError::TruncatedAvcConfigRecord));
                proof {
                    assert(events@.take(e0.len() as int) =~= e0);
                    assert(events@.subrange(e0.len() as int, events@.len() - 1) =~= ep.skip(e0.len() as int));
                }
                return None;
            }
            let len = read_be_u16(&arrayBuffer[dataOffset + offset..dataOffset + offset + 2]) as usize;
            proof {
                assert(len == be16_at(buf, off + offset));
            }
            offset = offset + 2;
            if len == 0 {
                proof {
                    if i == 0 {
                        assert(e0.skip(e0.len() as int) =~= Seq::<DemuxEvent>::empty());
                    }
                }
                i = i + 1;
                continue;
            }
            if dataSize - offset < len {
                events.push(DemuxEvent::Error(DemuxError::TruncatedAvcConfigRecord));
                proof {
                    assert(events@.take(e0.len() as int) =~= e0);
                    assert(events@.subrange(e0.len() as int, events@.len() - 1) =~= ep.skip(e0.len() as int));
                }
                return None;
            }
            let sps = &arrayBuffer[dataOffset + offset..dataOffset + offset + len];
            let ghost entry = (i as int, (dataOffset + offset) as int, len as int);
            offset = offset + len;
            let ghost done0 = done;
            proof {
                assert(sps@ =~= buf.subrange(entry.1, entry.1 + entry.2));
                let next = avcc_sps_walk(buf, off, size, offset as int, i + 1, n - i - 1);
                match next {
                    None => {},
                    Some((r, e)) => {
                        assert(done + (seq![entry] + r) =~= done.push(entry) + r);
                    },
                }
                done = done.push(entry);
            }
            let config = match parseSPS(sps) {
                Ok(c) => c,
                Err(_) => {
                    events.push(DemuxEvent::Error(DemuxError::TruncatedAvcConfigRecord));
                    proof {
                        assert(events@.take(e0.len() as int) =~= e0);
                        assert(events@.subrange(e0.len() as int, events@.len() - 1) =~= ep.skip(e0.len() as int));
                        match whole {
                            None => {},
                            Some((w, e)) => {
                                assert(w[done0.len() as int] == entry);
                            },
                        }
                    }
                    return None;
                },
            };
            if i == 0 {
                proof {
                    if done0.len() > 0 {
                        assert(0 <= done0[0].0 < 0);
                    }
                }
                if len < 4 {
                    events.push(DemuxEvent::Error(DemuxError::TruncatedAvcConfigRecord));
                    proof {
                        assert(events@.take(e0.len() as int) =~= e0);
                        assert(done0.len() == 0);
                        match whole {
                            None => {},
                            Some((w, e)) => {
                                assert(w[0] == entry);
                                assert(w.len() > 0 && w[0].0 == 0 && w[0].2 < 4);
                            },
                        }
                    }
                    return None;
                }
                let ghost e1 = events@;
                let keep = self.apply_first_sps(config, sps, newAVCDecoderConfig, events);
                proof {
                    assert(events@.take(e0.len() as int) =~= e0) by {
                        assert(events@.take(e1.len() as int) == e1);
                        assert(e1.take(e0.len() as int) == e0);
                    }
                }
                if !keep {
                    proof {
                        match whole {
                            None => {},
                            Some((w, e)) => {
                                assert(w[0] == entry);
                            },
                        }
                    }
                    return None;
                }
                proof {
                    reveal(first_sps_taken);
                    assert(done[0] == entry);
                    assert(sps_info_of(config, sps_syntax_at(buf, entry.1, entry.2)->Ok_0.0));
                    assert(events@.skip(e0.len() as int) =~= events@.subrange(e1.len() as int, events@.len() as int));
                    assert(events@.skip(e0.len() as int) == first_sps_events(d0, config, self._mediaInfo));
                    assert(first_sps_taken(d0, self._videoMetadata->Some_0, self._mediaInfo, self._lastVideoDimension,
                        events@.skip(e0.len() as int), buf, (0, entry.1, entry.2)));
                }
            }
            i = i + 1;
        }
        proof {
            assert(avcc_sps_walk(buf, off, size, offset as int, i as int, 0) == Some((Seq::<(int, int, int)>::empty(), offset as int)));
            assert(done + Seq::<(int, int, int)>::empty() =~= done);
        }
        Some(offset)
    }

    /// Takes the bytes of a configuration record into the video metadata, hands the queued
    /// samples over when every track had sent its initial metadata, and announces the video
    /// track with its init segment.
    fn announce_video(&mut self, avcc: Vec<u8>, remuxer: &mut MP4Remuxer, events: &mut Vec<DemuxEvent>)
        requires
            old(self).wf(),
            old(remuxer).wf(),
            old(self)._videoMetadata is Some,
            8 * avcc@.len() <= usize::MAX,
        ensures
            final(self).wf(),
            final(remuxer).wf(),
            final(self)._videoMetadata matches Some(m) && video_meta_kept(old(self)._videoMetadata->Some_0, m)
                && m.meta.avcc@ == avcc@,
            *final(self) == (FLVDemuxer {
                _videoMetadata: final(self)._videoMetadata,
                _dispatch: false,
                _videoInitialMetadataDispatched: old(self)._videoInitialMetadataDispatched
                    || !initial_metadata_dispatched(*old(self)),
                _audioTrack: final(self)._audioTrack,
                _videoTrack: final(self)._videoTrack,
                ..*old(self)
            }),
            exists|fl: Seq<DemuxEvent>, rf: MP4Remuxer| {
                &&& #[trigger] samples_flushed(initial_metadata_dispatched(*old(self)), *old(self), *final(self), *old(remuxer), rf, fl)
                &&& final(events)@ == old(events)@ + fl + seq![final(events)@.last()]
                &&& *final(remuxer) == (MP4Remuxer { _videoMeta: final(remuxer)._videoMeta, ..rf })
            },
            final(events)@.last() matches DemuxEvent::Init(seg),
            final(remuxer)._videoMeta matches Some(rm),
            video_meta_same(final(remuxer)._videoMeta->Some_0, final(self)._videoMetadata->Some_0),
            init_segment_is(final(events)@.last()->Init_0, final(remuxer)._videoMeta->Some_0.meta, false),
    {
        let mut m = match self._videoMetadata.take() {
            Some(m) => m,
            None => {
                return;
            },
        };
        let ghost m_before = m;
        m.meta.avcc = avcc;
        proof {
            assert(video_meta_kept(m_before, m));
        }
        self._videoMetadata = Some(m);
        let ghost e3 = events@;
        let ghost dM = *self;
        self.flush_before_metadata(true, remuxer, events);
        let ghost rF = *remuxer;
        let ghost eF = events@;
        self._dispatch = false;
        let copy = match &self._videoMetadata {
            Some(m) => copy_video_meta(m),
            None => {
                return;
            },
        };
        let seg = remuxer._onTrackMetadataReceived(Tmd::Video(copy));
        events.push(DemuxEvent::Init(seg));
        proof {
            assert(initial_metadata_dispatched(dM) == initial_metadata_dispatched(*old(self)));
            let fl = eF.skip(e3.len() as int);
            assert(samples_flushed(initial_metadata_dispatched(*old(self)), *old(self), *self, *old(remuxer), rF, fl));
            assert(events@ =~= old(events)@ + fl + seq![events@.last()]);
        }
    }

    /// Takes an AVCDecoderConfigurationRecord: NAL length size, the first SPS, and the
    /// record itself for the init segment, which then goes out. Samples queued before
    /// are handed over first when the stream had its initial metadata.
    #[verifier::rlimit(100)]
    #[verifier::spinoff_prover]
    pub fn _parseAVCDecoderConfigurationRecord(
        &mut self,
        arrayBuffer: &[u8],
        dataOffset: usize,
        dataSize: usize,
        remuxer: &mut MP4Remuxer,
        events: &mut Vec<DemuxEvent>,
    )
        requires
            old(self).wf(),
            old(remuxer).wf(),
            dataOffset + dataSize <= arrayBuffer@.len(),
            8 * arrayBuffer@.len() <= usize::MAX,
        ensures
            final(self).wf(),
            final(remuxer).wf(),
            final(events)@.len() >= old(events)@.len(),
            final(events)@.take(old(events)@.len() as int) == old(events)@,
            avc_config_taken(*old(self), *final(self), *old(remuxer), *final(remuxer), old(events)@, final(events)@,
                arrayBuffer@, dataOffset as int, dataSize as int),
    {
        let head = avcc_header(arrayBuffer, dataOffset, dataSize);
        if head == AvccHead::TooShort {
            return;
        }
        let newAVCDecoderConfig = match &self._videoMetadata {
            Some(m) => m.meta.avcc.len() > 0,
            None => false,
        };
        let ghost d0 = *old(self);
        let (ls, spsCount) = match self.avcc_begin(head, events) {
            Some(p) => (p.ls, p.count),
            None => {
                return;
            },
        };
        let ghost da = *self;
        proof {
            assert(has_avc_config(da) == has_avc_config(d0));
            assert(da._lastVideoDimension == d0._lastVideoDimension);
        }
        let ghost e1 = events@;
        let e = match self.avcc_sps_entries(arrayBuffer, dataOffset, dataSize, spsCount, newAVCDecoderConfig, events) {
            Some(e) => e,
            None => {
                proof {
                    assert(!avcc_sps_ok(arrayBuffer@, dataOffset as int, dataSize as int, spsCount as int, d0));
                    if !avcc_entry0_broken(arrayBuffer@, dataOffset as int, dataSize as int)
                        && !avcc_entry0_same(arrayBuffer@, dataOffset as int, dataSize as int, da) {
                        lemma_entry0_begun(d0, ls, da, *self, events@.subrange(e1.len() as int, events@.len() - 1),
                            arrayBuffer@, dataOffset as int, dataSize as int);
                    }
                }
                return;
            },
        };
        let ghost e2 = events@;
        let ghost dM = *self;
        proof {
            lemma_entry0_begun(d0, ls, da, dM, e2.skip(e1.len() as int), arrayBuffer@, dataOffset as int, dataSize as int);
        }
        match avcc_pps_check(arrayBuffer, dataOffset, dataSize, e) {
            Ok(()) => {},
            Err(err) => {
                events.push(DemuxEvent::Error(err));
                proof {
                    assert(events@.take(e2.len() as int) =~= e2);
                    assert(events@.take(old(events)@.len() as int) =~= old(events)@);
                    assert(events@.subrange(e1.len() as int, events@.len() - 1) =~= e2.skip(e1.len() as int));
                }
                return;
            },
        }
        let avcc = copy_range(arrayBuffer, dataOffset, dataOffset + dataSize);
        self.announce_video(avcc, remuxer, events);
        proof {
            let ev = e2.skip(old(events)@.len() as int);
            assert(e2 =~= old(events)@ + ev);
            assert(initial_metadata_dispatched(dM) == video_begun_dispatched(d0));
            let (fl, rf) = choose|fl: Seq<DemuxEvent>, rf: MP4Remuxer| {
                &&& samples_flushed(initial_metadata_dispatched(dM), dM, *self, *old(remuxer), rf, fl)
                &&& events@ == e2 + fl + seq![events@.last()]
                &&& *remuxer == (MP4Remuxer { _videoMeta: remuxer._videoMeta, ..rf })
            };
            assert(samples_flushed(video_begun_dispatched(d0), d0, *self, *old(remuxer), rf, fl));
            assert(events@ =~= old(events)@ + ev + fl + seq![events@.last()]);
            assert(events@.take(old(events)@.len() as int) =~= old(events)@);
            assert(entry0_applied(d0, ls, dM, ev, arrayBuffer@, dataOffset as int, dataSize as int));
        }
    }
}

/// SPS entries taken whole have an entry 0 that can be taken: it is readable, parses, has
/// its four header bytes and does not repeat the last configuration.
proof fn lemma_sps_ok_entry0(buf: Seq<u8>, off: int, size: int, n: int, d: FLVDemuxer)
    requires
        avcc_sps_ok(buf, off, size, n, d),
        n >= 1,
    ensures
        !avcc_entry0_broken(buf, off, size),
        !avcc_entry0_same(buf, off, size, d),
{
    let len = be16_at(buf, off + 6);
    if len != 0 {
        let entries = avcc_sps_walk(buf, off, size, 6, 0, n)->Some_0.0;
        assert(entries[0] == (0int, off + 8, len as int));
        assert(sps_syntax_at(buf, entries[0].1, entries[0].2) is Ok);
    }
}

/// SPS entry 0 of a record has the video size of the last configuration of demuxer `d`.
pub open spec fn same_size_as_last(buf: Seq<u8>, off: int, size: int, d: FLVDemuxer) -> bool {
    match avcc_entry0(buf, off, size) {
        Some(Some((s, l))) => {
            &&& has_avc_config(d)
            &&& d._lastVideoDimension matches Some(last)
            &&& last.width == codec_width_of(sps_syntax_at(buf, s, l)->Ok_0.0)
            &&& last.height == codec_height_of(sps_syntax_at(buf, s, l)->Ok_0.0)
        },
        _ => false,
    }
}

/// A configuration record with an SPS entry 0, taken whole and sent again right after, is
/// dropped the second time: the demuxer and the remuxer stay as they were and no event goes
/// out. This holds unless the configuration before had the same video size (under another
/// profile or level, which the last video size then keeps).
pub proof fn lemma_repeated_record_dropped(
    d0: FLVDemuxer,
    d1: FLVDemuxer,
    d2: FLVDemuxer,
    r0: MP4Remuxer,
    r1: MP4Remuxer,
    r2: MP4Remuxer,
    e0: Seq<DemuxEvent>,
    e1: Seq<DemuxEvent>,
    e2: Seq<DemuxEvent>,
    buf: Seq<u8>,
    off: int,
    size: int,
)
    requires
        avc_config_taken(d0, d1, r0, r1, e0, e1, buf, off, size),
        avc_config_taken(d1, d2, r1, r2, e1, e2, buf, off, size),
        0 <= off,
        off + size <= buf.len(),
        avcc_head(buf, off, size) is Good,
        avcc_complete(buf, off, size, avcc_head(buf, off, size)->Good_1 as int, d0),
        avcc_entry0(buf, off, size) matches Some(Some(_)),
        !same_size_as_last(buf, off, size, d0),
    ensures
        d2 == d1,
        r2 == r1,
        e2 == e1,
{
    let ls = avcc_head(buf, off, size)->Good_0;
    let n = avcc_head(buf, off, size)->Good_1;
    lemma_sps_ok_entry0(buf, off, size, n as int, d0);
    let m = d1._videoMetadata->Some_0;
    let (dx, ev, fl, rf) = choose|dx: FLVDemuxer, ev: Seq<DemuxEvent>, fl: Seq<DemuxEvent>, rf: MP4Remuxer| {
        &&& #[trigger] entry0_applied(d0, ls, dx, ev, buf, off, size)
        &&& #[trigger] samples_flushed(video_begun_dispatched(d0), d0, d1, r0, rf, fl)
        &&& dx._videoMetadata matches Some(mx)
        &&& video_meta_kept(mx, m)
        &&& d1 == (FLVDemuxer {
            _videoMetadata: d1._videoMetadata,
            _dispatch: false,
            _videoInitialMetadataDispatched: d1._videoInitialMetadataDispatched,
            _audioTrack: d1._audioTrack,
            _videoTrack: d1._videoTrack,
            ..dx
        })
        &&& e1 == e0 + ev + fl + seq![e1.last()]
        &&& r1 == (MP4Remuxer { _videoMeta: r1._videoMeta, ..rf })
    };
    let (s, l) = avcc_entry0(buf, off, size)->Some_0->Some_0;
    let syn = sps_syntax_at(buf, s, l)->Ok_0.0;
    let db = video_begun_state(d0, ls);
    let mx = dx._videoMetadata->Some_0;
    reveal(first_sps_taken);
    let info = choose|info: SPSInfo| {
        &&& #[trigger] sps_info_of(info, sps_syntax_at(buf, s, l)->Ok_0.0)
        &&& sps_applied(mx, info, buf.subrange(s, s + l), db._timescale, db._referenceFrameRate)
        &&& video_info_set(db._mediaInfo, dx._mediaInfo, info, chosen_frame_rate(info.frame_rate, db._referenceFrameRate), avc1_codec(buf.subrange(s, s + l)))
        &&& last_dimension_set(db._lastVideoDimension, has_avc_config(db), info, dx._lastVideoDimension)
        &&& ev == first_sps_events(db, info, dx._mediaInfo)
    };
    assert(has_avc_config(db) == has_avc_config(d0));
    assert(d1._lastVideoDimension == dx._lastVideoDimension);
    assert(m.meta.avcc@.len() == size);
    assert(has_avc_config(d1));
    assert(avcc_entry0_same(buf, off, size, d1));
    assert(d1._naluLengthSize == ls);
    assert(d2 == d1);
}

// ---------------------------------------------------------------- video tags

/// What an AVC video packet at `[off, off + size)` does: a configuration record, NAL
/// units, an end of sequence, or an error for another packet type.
pub open spec fn avc_packet_taken(
    d0: FLVDemuxer,
    d1: FLVDemuxer,
    r0: MP4Remuxer,
    r1: MP4Remuxer,
    e0: Seq<DemuxEvent>,
    e1: Seq<DemuxEvent>,
    buf: Seq<u8>,
    off: int,
    size: int,
    tagTimestamp: u32,
    tagPosition: u64,
    frameType: u8,
) -> bool {
    if size < 4 {
        d1 == d0 && r1 == r0 && e1 == e0
    } else {
        let packetType = buf[off];
        let cts = sign_extend24(be24_at(buf, off + 1));
        if packetType == 0 {
            avc_config_taken(d0, d1, r0, r1, e0, e1, buf, off + 4, size - 4)
        } else if packetType == 1 {
            avc_data_queued(d0, d1, buf, off + 4, size - 4, tagTimestamp, tagPosition, frameType, cts)
                && r1 == r0 && e1 == e0
        } else if packetType == 2 {
            d1 == d0 && r1 == r0 && e1 == e0
        } else {
            d1 == d0 && r1 == r0 && e1 == e0.push(DemuxEvent::Error(DemuxError::InvalidVideoPacketType(packetType)))
        }
    }
}

/// What a video tag body at `[off, off + size)` does: AVC packets are taken, other codecs
/// reported; nothing when the body is a single byte or video was overridden off.
pub open spec fn video_tag_taken(
    d0: FLVDemuxer,
    d1: FLVDemuxer,
    r0: MP4Remuxer,
    r1: MP4Remuxer,
    e0: Seq<DemuxEvent>,
    e1: Seq<DemuxEvent>,
    buf: Seq<u8>,
    off: int,
    size: int,
    tagTimestamp: u32,
    tagPosition: u64,
) -> bool {
    if size <= 1 || (d0._hasVideoFlagOverrided && !d0._hasVideo) {
        d1 == d0 && r1 == r0 && e1 == e0
    } else {
        let spec = buf[off];
        let codecId = (spec % 16) as u8;
        if codecId != 7 {
            d1 == d0 && r1 == r0 && e1 == e0.push(DemuxEvent::Error(DemuxError::UnsupportedVideoCodec(codecId)))
        } else {
            avc_packet_taken(d0, d1, r0, r1, e0, e1, buf, off + 1, size - 1, tagTimestamp, tagPosition, (spec / 16) as u8)
        }
    }
}

/// An AVC video tag carrying NAL units (packet type 1) adds one sample to the video queue
/// when its units can be read: timed at the tag's timestamp plus the timestamp base, with
/// the composition offset the signed 24-bit field after the packet type, and a keyframe
/// exactly when the frame type (high four bits of the first byte) is 1 or a unit is an IDR
/// slice (type 5). No event goes out and the remuxer stays as it was.
pub proof fn lemma_avc_frame_queued(
    d0: FLVDemuxer,
    d1: FLVDemuxer,
    r0: MP4Remuxer,
    r1: MP4Remuxer,
    e0: Seq<DemuxEvent>,
    e1: Seq<DemuxEvent>,
    buf: Seq<u8>,
    off: int,
    size: int,
    tagTimestamp: u32,
    tagPosition: u64,
)
    requires
        video_tag_taken(d0, d1, r0, r1, e0, e1, buf, off, size, tagTimestamp, tagPosition),
        0 <= off,
        5 <= size,
        off + size <= buf.len(),
        !(d0._hasVideoFlagOverrided && !d0._hasVideo),
        buf[off] & 15u8 == 7,
        buf[off + 1] == 1,
    ensures
        r1 == r0,
        e1 == e0,
        d1._videoTrack.samples@.len() == d0._videoTrack.samples@.len()
            || d1._videoTrack.samples@.len() == d0._videoTrack.samples@.len() + 1,
        d1._videoTrack.samples@.len() == d0._videoTrack.samples@.len() + 1 ==> {
            let s = d1._videoTrack.samples@.last();
            let raw = buf[off + 2] as int * 0x10000 + buf[off + 3] as int * 0x100 + buf[off + 4] as int;
            &&& d1._videoTrack.samples@.drop_last() == d0._videoTrack.samples@
            &&& s.dts == d0._timestampBase + tagTimestamp
            &&& -0x800000 <= s.pts - s.dts < 0x800000
            &&& (raw - (s.pts - s.dts)) % 0x1000000 == 0
            &&& s.isKeyframe == (buf[off] >> 4u8 == 1 || exists|i: int| 0 <= i < s.units@.len() && #[trigger] s.units@[i]._type == 5)
        },
{
    let b0 = buf[off];
    assert(b0 & 15u8 == b0 % 16 && b0 >> 4u8 == b0 / 16) by (bit_vector);
    let raw = be24_at(buf, off + 2);
    crate::bytes::lemma_sign_extend24(raw);
    let refs = crate::flv_demuxer::spec_nalus(buf, off + 5, size - 5, d0._naluLengthSize as int, 0);
    if d1._videoTrack.samples@.len() == d0._videoTrack.samples@.len() + 1 {
        let s = d1._videoTrack.samples@.last();
        let r = refs->Some_0;
        assert(crate::flv_demuxer::units_match(buf, s.units@, r));
        assert(s.units@.len() == r.len());
        if crate::flv_demuxer::has_idr(r) {
            let i = choose|i: int| 0 <= i < r.len() && r[i].0 == 5;
            assert(s.units@[i]._type == 5);
        }
        if exists|i: int| 0 <= i < s.units@.len() && #[trigger] s.units@[i]._type == 5 {
            let i = choose|i: int| 0 <= i < s.units@.len() && #[trigger] s.units@[i]._type == 5;
            assert(r[i].0 == 5);
        }
    }
}

impl FLVDemuxer {
    /// Takes an AVC video packet.
    pub fn _parseAVCVideoPacket(
        &mut self,
        arrayBuffer: &[u8],
        dataOffset: usize,
        dataSize: usize,
        tagTimestamp: u32,
        tagPosition: u64,
        frameType: u8,
        remuxer: &mut MP4Remuxer,
        events: &mut Vec<DemuxEvent>,
    )
        requires
            old(self).wf(),
            old(remuxer).wf(),
            dataOffset + dataSize <= arrayBuffer@.len(),
            8 * arrayBuffer@.len() <= usize::MAX,
        ensures
            final(self).wf(),
            final(remuxer).wf(),
            final(events)@.len() >= old(events)@.len(),
            final(events)@.take(old(events)@.len() as int) == old(events)@,
            avc_packet_taken(*old(self), *final(self), *old(remuxer), *final(remuxer), old(events)@, final(events)@,
                arrayBuffer@, dataOffset as int, dataSize as int, tagTimestamp, tagPosition, frameType),
    {
        if dataSize < 4 {
            return;
        }
        let packetType = arrayBuffer[dataOffset];
        let cts = read_be_i24(&arrayBuffer[dataOffset + 1..dataOffset + 4]);
        proof {
            let sub = arrayBuffer@.subrange(dataOffset + 1, dataOffset + 4);
            assert(be24_at(sub, 0) == be24_at(arrayBuffer@, dataOffset + 1));
        }
        if packetType == 0 {
            // AVCDecoderConfigurationRecord
            self._parseAVCDecoderConfigurationRecord(arrayBuffer, dataOffset + 4, dataSize - 4, remuxer, events);
        } else if packetType == 1 {
            // one or more NAL units
            self._parseAVCVideoData(arrayBuffer, dataOffset + 4, dataSize - 4, tagTimestamp, tagPosition, frameType, cts);
        } else if packetType == 2 {
            // empty, AVC end of sequence
        } else {
            events.push(DemuxEvent::Error(DemuxError::InvalidVideoPacketType(packetType)));
            proof {
                assert(events@.take(old(events)@.len() as int) =~= old(events)@);
            }
        }
    }

    /// Takes the body of a video tag.
    pub fn _parseVideoData(
        &mut self,
        arrayBuffer: &[u8],
        dataOffset: usize,
        dataSize: usize,
        tagTimestamp: u32,
        tagPosition: u64,
        remuxer: &mut MP4Remuxer,
        events: &mut Vec<DemuxEvent>,
    )
        requires
            old(self).wf(),
            old(remuxer).wf(),
            dataOffset + dataSize <= arrayBuffer@.len(),
            8 * arrayBuffer@.len() <= usize::MAX,
        ensures
            final(self).wf(),
            final(remuxer).wf(),
            final(events)@.len() >= old(events)@.len(),
            final(events)@.take(old(events)@.len() as int) == old(events)@,
            video_tag_taken(*old(self), *final(self), *old(remuxer), *final(remuxer), old(events)@, final(events)@,
                arrayBuffer@, dataOffset as int, dataSize as int, tagTimestamp, tagPosition),
    {
        if dataSize <= 1 {
            return;
        }
        if self._hasVideoFlagOverrided && !self._hasVideo {
            // video was explicitly turned off: its packets are ignored
            return;
        }
        let spec = arrayBuffer[dataOffset];
        let frameType = (spec & 0xF0) >> 4;
        let codecId = spec & 0x0F;
        proof {
            assert((spec & 0xF0) >> 4 == spec / 16) by (bit_vector);
            assert(spec & 0x0F == spec % 16) by (bit_vector);
        }
        if codecId != 7 {
            events.push(DemuxEvent::Error(DemuxError::UnsupportedVideoCodec(codecId)));
            proof {
                assert(events@.take(old(events)@.len() as int) =~= old(events)@);
            }
            return;
        }
        self._parseAVCVideoPacket(arrayBuffer, dataOffset + 1, dataSize - 1, tagTimestamp, tagPosition, frameType, remuxer, events);
    }
}

// ---------------------------------------------------------------- audio tags

/// Sampling rates an FLV audio tag header can announce.
pub open spec fn FLV_SOUND_RATES() -> Seq<u32> {
    seq![5500u32, 11025, 22050, 44100]
}

/// The sound format of an FLV audio tag header byte.
pub open spec fn flv_sound_format(b0: u8) -> u8 {
    (b0 / 16) as u8
}

/// The sampling rate of an FLV audio tag header byte.
pub open spec fn flv_sound_rate(b0: u8) -> u32 {
    FLV_SOUND_RATES()[((b0 % 16) / 4) as int]
}

/// The channel count of an FLV audio tag header byte.
pub open spec fn flv_sound_channels(b0: u8) -> u32 {
    if b0 % 2 == 0 { 1 } else { 2 }
}

/// The header byte of an FLV audio tag (FLV specification, AUDIODATA): the high four bits
/// are the sound format (2 for MP3, 10 for AAC), the next two index the rates 5.5, 11, 22
/// and 44 kHz, and the lowest bit is 1 for stereo.
pub proof fn lemma_flv_sound_header(b0: u8)
    ensures
        flv_sound_format(b0) == b0 >> 4u8,
        flv_sound_rate(b0) == seq![5500u32, 11025, 22050, 44100][((b0 >> 2u8) & 3u8) as int],
        flv_sound_channels(b0) == if b0 & 1u8 == 0 { 1u32 } else { 2u32 },
{
    assert(b0 >> 4u8 == b0 / 16 && (b0 >> 2u8) & 3u8 == (b0 % 16) / 4 && (b0 & 1u8 == 0) == (b0 % 2 == 0))
        by (bit_vector);
}

/// An audio frame holding the bytes `[start, start + len)` of `buf`, at `dts`.
pub open spec fn audio_sample_is(s: crate::flv_demuxer::AudioSample, buf: Seq<u8>, start: int, len: int, dts: int) -> bool {
    &&& s.unit@ == buf.subrange(start, start + len)
    &&& s.length == len
    &&& s.dts == dts
    &&& s.pts == dts
}

/// What queueing the audio frame `[start, start + len)` does to demuxer `d0`.
pub open spec fn audio_queued(d0: FLVDemuxer, d1: FLVDemuxer, buf: Seq<u8>, start: int, len: int, tagTimestamp: u32) -> bool {
    let t0 = d0._audioTrack;
    let t1 = d1._audioTrack;
    if track_room(t0.length as int, t0.samples@.len() as int, len) {
        &&& t1.samples@.len() == t0.samples@.len() + 1
        &&& t1.samples@.drop_last() == t0.samples@
        &&& audio_sample_is(t1.samples@.last(), buf, start, len, d0._timestampBase + tagTimestamp)
        &&& d1 == (FLVDemuxer { _audioTrack: t1, ..d0 })
    } else {
        d1 == d0
    }
}

/// The audio metadata made before the first configuration: the tag's rate and channels.
pub open spec fn fresh_audio_meta(m: AudioTrackMetaData, d: FLVDemuxer, rate: u32, ch: u32) -> bool {
    &&& m.meta.id == d._audioTrack.id
    &&& m.meta._type == TrackType::Audio
    &&& m.meta.timescale == d._timescale
    &&& m.meta.duration == d._duration as u32
    &&& m.meta.audioSampleRate == rate
    &&& m.meta.channelCount == ch
    &&& m.meta.codec@.len() == 0
    &&& m.meta.config@.len() == 0
    &&& m.meta.avcc@.len() == 0
}

/// Audio metadata `m` is `m0` with a new configuration.
pub open spec fn audio_meta_set(
    m: AudioTrackMetaData,
    m0: AudioTrackMetaData,
    rate: u32,
    ch: u32,
    codec: Seq<char>,
    original: Seq<char>,
    config: Seq<u8>,
    num: int,
    den: int,
) -> bool {
    &&& m.meta.id == m0.meta.id
    &&& m.meta._type == m0.meta._type
    &&& m.meta.timescale == m0.meta.timescale
    &&& m.meta.duration == m0.meta.duration
    &&& m.meta.audioSampleRate == rate
    &&& m.meta.channelCount == ch
    &&& m.meta.codec@ == codec
    &&& m.meta.config@ == config
    &&& m.meta.avcc@ == m0.meta.avcc@
    &&& m.originalCodec@ == original
    &&& m.refSampleDurationNum == num
    &&& m.refSampleDurationDen == den
}

/// The media information after an audio configuration: audio fields and type.
pub open spec fn audio_info_set(m0: MediaInfo, m1: MediaInfo, codec: Seq<char>, rate: u32, ch: u32) -> bool {
    &&& m1.audioCodec matches Some(a) && a@ == codec
    &&& m1.audioSampleRate == Some(rate)
    &&& m1.audioChannelCount == Some(ch)
    &&& if m0.hasVideo == Some(true) {
        match m0.videoCodec {
            Some(v) => m1.mimeType matches Some(t) && t@ == flv_mime(v@ + ","@ + codec),
            None => m1.mimeType == m0.mimeType,
        }
    } else {
        m1.mimeType matches Some(t) && t@ == flv_mime(codec)
    }
}

/// The events of announcing metadata after handing over: `pre` (which extends `e0`),
/// the init segment, then a media information event when it is complete.
pub open spec fn announced(e0: Seq<DemuxEvent>, e1: Seq<DemuxEvent>, mi: MediaInfo) -> bool {
    let k = e1.len() - 1 - info_events(mi).len();
    &&& 0 <= e0.len() <= k
    &&& e1.take(e0.len() as int) == e0
    &&& e1.skip(k + 1) == info_events(mi)
}

/// Before the audio track is announced anew, the queued samples went out when every track
/// had sent its initial metadata; then the remuxer took the audio metadata, and the events
/// are the segments made, the init segment, and the media information when complete.
pub open spec fn audio_flushed_announced(dm: FLVDemuxer, d1: FLVDemuxer, r0: MP4Remuxer, r1: MP4Remuxer, e0: Seq<DemuxEvent>, e1: Seq<DemuxEvent>) -> bool {
    exists|fl: Seq<DemuxEvent>, rf: MP4Remuxer| {
        &&& #[trigger] samples_flushed(initial_metadata_dispatched(dm), dm, d1, r0, rf, fl)
        &&& e1 == e0 + fl + seq![e1[(e0.len() + fl.len()) as int]] + info_events(d1._mediaInfo)
        &&& r1 == (MP4Remuxer { _audioMeta: r1._audioMeta, ..rf })
    }
}

/// The audio track was announced: a first announcement marks the audio metadata as sent;
/// the queued samples stay unless every track had sent its initial metadata before.
pub open spec fn audio_sent(dm: FLVDemuxer, d1: FLVDemuxer) -> bool {
    let before = initial_metadata_dispatched(dm);
    &&& d1._hasAudio == dm._hasAudio
    &&& d1._hasVideo == dm._hasVideo
    &&& d1._videoInitialMetadataDispatched == dm._videoInitialMetadataDispatched
    &&& d1._audioInitialMetadataDispatched == (dm._audioInitialMetadataDispatched || !before)
    &&& !before ==> d1._videoTrack == dm._videoTrack && d1._audioTrack == dm._audioTrack
}

/// The init segment announced at event `k` is that of the audio metadata `d1` and the
/// remuxer now hold.
pub open spec fn audio_announced(d1: FLVDemuxer, r1: MP4Remuxer, e1: Seq<DemuxEvent>) -> bool {
    let k = e1.len() - 1 - info_events(d1._mediaInfo).len();
    &&& 0 <= k
    &&& e1[k] matches DemuxEvent::Init(seg)
    &&& r1._audioMeta matches Some(rm)
    &&& d1._audioMetadata matches Some(m)
    &&& audio_meta_same(rm, m)
    &&& init_segment_is(seg, rm.meta, crate::mp4_remuxer::is_mp3(rm.meta.codec@) && r1._mp3UseMpegAudio)
}

/// The demuxer after making audio metadata from a tag's rate and channels, when it had none.
pub open spec fn audio_meta_begun(d0: FLVDemuxer, dm: FLVDemuxer, rate: u32, ch: u32) -> bool {
    if d0._audioMetadata is Some {
        dm == d0
    } else {
        let turn_on = !d0._hasAudio && !d0._hasAudioFlagOverrided;
        &&& dm._audioMetadata matches Some(m)
        &&& fresh_audio_meta(m, d0, rate, ch)
        &&& m.originalCodec@.len() == 0
        &&& m.refSampleDurationNum == 0
        &&& m.refSampleDurationDen == 1
        &&& dm._hasAudio == (d0._hasAudio || turn_on)
        &&& dm._mediaInfo == (if turn_on { MediaInfo { hasAudio: Some(true), ..d0._mediaInfo } } else { d0._mediaInfo })
        &&& dm == (FLVDemuxer { _audioMetadata: dm._audioMetadata, _hasAudio: dm._hasAudio, _mediaInfo: dm._mediaInfo, ..d0 })
    }
}

/// What a configuration `(rate, channels, codec, original codec, config bytes, frame
/// duration)` does to the audio metadata and media information of `dm`, giving `d1`.
pub open spec fn audio_configured(
    dm: FLVDemuxer,
    d1: FLVDemuxer,
    rate: u32,
    ch: u32,
    codec: Seq<char>,
    original: Seq<char>,
    config: Seq<u8>,
    num: int,
    info_codec: Seq<char>,
) -> bool {
    &&& d1._audioMetadata matches Some(m)
    &&& audio_meta_set(m, dm._audioMetadata->Some_0, rate, ch, codec, original, config, num, rate as int)
    &&& audio_info_set(dm._mediaInfo, d1._mediaInfo, info_codec, rate, ch)
}

/// What an AAC packet `[off, off + size)` (after the audio tag header) does to `dm`.
pub open spec fn aac_packet_taken(
    dm: FLVDemuxer,
    d1: FLVDemuxer,
    r0: MP4Remuxer,
    r1: MP4Remuxer,
    e0: Seq<DemuxEvent>,
    e1: Seq<DemuxEvent>,
    buf: Seq<u8>,
    off: int,
    size: int,
    tagTimestamp: u32,
) -> bool {
    if size <= 1 {
        d1 == dm && r1 == r0 && e1 == e0
    } else if buf[off] == 0 {
        match spec_aac_config(buf, off + 1, size - 1, dm._browser) {
            Err(e) => d1 == dm && r1 == r0 && e1 == e0.push(DemuxEvent::Error(e)),
            Ok((config, sr, c, aot, aot0)) => {
                let m0 = dm._audioMetadata->Some_0;
                let codec = crate::flv_codec::mp4a_codec(aot);
                let original = crate::flv_codec::mp4a_codec(aot0);
                if m0.meta.channelCount == c && m0.meta.audioSampleRate == sr && m0.meta.codec@ == codec
                    && m0.originalCodec@ == original {
                    // the same configuration again
                    d1 == dm && r1 == r0 && e1 == e0
                } else {
                    &&& audio_configured(dm, d1, sr, c as u32, codec, original, config, 1024 * dm._timescale, original)
                    &&& audio_sent(dm, d1)
                    &&& audio_announced(d1, r1, e1)
                    &&& announced(e0, e1, d1._mediaInfo)
                    &&& !d1._dispatch
                    &&& audio_flushed_announced(dm, d1, r0, r1, e0, e1)
                }
            },
        }
    } else {
        audio_queued(dm, d1, buf, off + 1, size - 1, tagTimestamp) && r1 == r0 && e1 == e0
    }
}

/// What an MP3 frame `[off, off + size)` does to `dm`: the first one configures the track
/// from its header; every frame of four bytes or more is queued.
pub open spec fn mp3_frame_taken(
    dm: FLVDemuxer,
    d1: FLVDemuxer,
    r0: MP4Remuxer,
    r1: MP4Remuxer,
    e0: Seq<DemuxEvent>,
    e1: Seq<DemuxEvent>,
    buf: Seq<u8>,
    off: int,
    size: int,
    tagTimestamp: u32,
) -> bool {
    let m0 = dm._audioMetadata->Some_0;
    if m0.meta.codec@.len() == 0 {
        match spec_mp3_header(buf, off, size) {
            None => d1 == dm && r1 == r0 && e1 == e0,
            Some((sr, br, c)) => exists|dc: FLVDemuxer| {
                &&& audio_configured(dm, dc, sr, c, seq!['m', 'p', '3'], seq!['m', 'p', '3'], Seq::empty(), 1152 * dm._timescale, seq!['m', 'p', '3'])
                &&& dc._mediaInfo.audioDataRate == Some(br as i64)
                &&& dc == (FLVDemuxer {
                    _audioMetadata: dc._audioMetadata,
                    _audioInitialMetadataDispatched: true,
                    _mediaInfo: dc._mediaInfo,
                    ..dm
                })
                &&& audio_announced(dc, r1, e1)
                &&& announced(e0, e1, dc._mediaInfo)
                &&& r1 == (MP4Remuxer { _audioMeta: r1._audioMeta, ..r0 })
                &&& e1.len() == e0.len() + 1 + info_events(dc._mediaInfo).len()
                &&& audio_queued(dc, d1, buf, off, size, tagTimestamp)
            },
        }
    } else {
        audio_queued(dm, d1, buf, off, size, tagTimestamp) && r1 == r0 && e1 == e0
    }
}

/// What an audio tag body at `[off, off + size)` does. Other codecs than AAC and MP3 are
/// reported; nothing happens for a single byte or when audio was overridden off.
pub open spec fn audio_tag_taken(
    d0: FLVDemuxer,
    d1: FLVDemuxer,
    r0: MP4Remuxer,
    r1: MP4Remuxer,
    e0: Seq<DemuxEvent>,
    e1: Seq<DemuxEvent>,
    buf: Seq<u8>,
    off: int,
    size: int,
    tagTimestamp: u32,
) -> bool {
    if size <= 1 || (d0._hasAudioFlagOverrided && !d0._hasAudio) {
        d1 == d0 && r1 == r0 && e1 == e0
    } else {
        let b0 = buf[off];
        let fmt = flv_sound_format(b0);
        let rate = flv_sound_rate(b0);
        let ch = flv_sound_channels(b0);
        if fmt != 2 && fmt != 10 {
            d1 == d0 && r1 == r0 && e1 == e0.push(DemuxEvent::Error(DemuxError::UnsupportedAudioCodec(fmt)))
        } else {
            audio_body_taken(d0, d1, r0, r1, e0, e1, buf, off, size, tagTimestamp, fmt == 10, rate, ch)
        }
    }
}

/// After the audio tag header: the metadata is made when there is none, then the AAC
/// packet or MP3 frame is taken.
pub open spec fn audio_body_taken(
    d0: FLVDemuxer,
    d1: FLVDemuxer,
    r0: MP4Remuxer,
    r1: MP4Remuxer,
    e0: Seq<DemuxEvent>,
    e1: Seq<DemuxEvent>,
    buf: Seq<u8>,
    off: int,
    size: int,
    tagTimestamp: u32,
    aac: bool,
    rate: u32,
    ch: u32,
) -> bool {
    exists|dm: FLVDemuxer| {
        &&& #[trigger] audio_meta_begun(d0, dm, rate, ch)
        &&& if aac {
            aac_packet_taken(dm, d1, r0, r1, e0, e1, buf, off + 1, size - 1, tagTimestamp)
        } else {
            mp3_frame_taken(dm, d1, r0, r1, e0, e1, buf, off + 1, size - 1, tagTimestamp)
        }
    }
}

/// An AAC audio tag whose packet type is not 0 (a raw frame) adds one sample to the audio
/// queue: the bytes after the two header bytes, timed at the tag's timestamp plus the
/// timestamp base, with pts equal to dts; nothing else about the queue changes, no event
/// goes out and the remuxer stays as it was. (The queue takes samples while its byte and
/// sample counts stay within its bound.)
pub proof fn lemma_aac_frame_queued(
    d0: FLVDemuxer,
    d1: FLVDemuxer,
    r0: MP4Remuxer,
    r1: MP4Remuxer,
    e0: Seq<DemuxEvent>,
    e1: Seq<DemuxEvent>,
    buf: Seq<u8>,
    off: int,
    size: int,
    tagTimestamp: u32,
)
    requires
        audio_tag_taken(d0, d1, r0, r1, e0, e1, buf, off, size, tagTimestamp),
        0 <= off,
        3 <= size,
        off + size <= buf.len(),
        !(d0._hasAudioFlagOverrided && !d0._hasAudio),
        buf[off] >> 4u8 == 10,
        buf[off + 1] != 0,
        track_room(d0._audioTrack.length as int, d0._audioTrack.samples@.len() as int, size - 2),
    ensures
        d1._audioTrack.samples@.len() == d0._audioTrack.samples@.len() + 1,
        d1._audioTrack.samples@.drop_last() == d0._audioTrack.samples@,
        d1._audioTrack.samples@.last().unit@ == buf.subrange(off + 2, off + size),
        d1._audioTrack.samples@.last().length == size - 2,
        d1._audioTrack.samples@.last().dts == d0._timestampBase + tagTimestamp,
        d1._audioTrack.samples@.last().pts == d0._timestampBase + tagTimestamp,
        r1 == r0,
        e1 == e0,
{
    let b0 = buf[off];
    lemma_flv_sound_header(b0);
    let rate = flv_sound_rate(b0);
    let ch = flv_sound_channels(b0);
    let dm = choose|dm: FLVDemuxer| {
        &&& #[trigger] audio_meta_begun(d0, dm, rate, ch)
        &&& aac_packet_taken(dm, d1, r0, r1, e0, e1, buf, off + 1, size - 1, tagTimestamp)
    };
    assert(dm._audioTrack == d0._audioTrack);
    assert(dm._timestampBase == d0._timestampBase);
}

impl FLVDemuxer {
    /// Makes the audio metadata from a tag's rate and channels when there is none.
    fn audio_meta_begin(&mut self, rate: u32, ch: u32)
        requires
            old(self).wf(),
        ensures
            final(self).wf(),
            audio_meta_begun(*old(self), *final(self), rate, ch),
    {
        if self._audioMetadata.is_some() {
            return;
        }
        if !self._hasAudio && !self._hasAudioFlagOverrided {
            self._hasAudio = true;
            self._mediaInfo.hasAudio = Some(true);
        }
        self._audioMetadata = Some(
            AudioTrackMetaData {
                meta: Meta {
                    id: self._audioTrack.id,
                    _type: TrackType::Audio,
                    timescale: self._timescale,
                    duration: self._duration as u32,
                    presentWidth: 0,
                    presentHeight: 0,
                    codecWidth: 0,
                    codecHeight: 0,
                    channelCount: ch,
                    audioSampleRate: rate,
                    codec: String::new(),
                    config: Vec::new(),
                    avcc: Vec::new(),
                },
                originalCodec: String::new(),
                refSampleDurationNum: 0,
                refSampleDurationDen: 1,
            },
        );
    }

    /// Queues the audio frame `[start, start + len)` of `buf`.
    fn queue_audio(&mut self, buf: &[u8], start: usize, len: usize, tagTimestamp: u32)
        requires
            old(self).wf(),
            start + len <= buf@.len(),
            8 * buf@.len() <= usize::MAX,
        ensures
            final(self).wf(),
            audio_queued(*old(self), *final(self), buf@, start as int, len as int, tagTimestamp),
    {
        let limit = usize::MAX / 64;
        if self._audioTrack.length > limit || len > limit - self._audioTrack.length
            || self._audioTrack.samples.len() >= limit {
            // a track this large cannot be held
            return;
        }
        let dts = self._timestampBase + tagTimestamp as i64;
        let unit = copy_range(buf, start, start + len);
        let sample = crate::flv_demuxer::AudioSample { unit, length: len, dts, pts: dts };
        let ghost t0 = self._audioTrack;
        self._audioTrack.push_sample(sample);
        proof {
            assert(self._audioTrack.samples@.drop_last() =~= t0.samples@);
            assert forall|i: int| 0 <= i < self._audioTrack.samples@.len() implies
                crate::mp4_remuxer::audio_sample_ok(#[trigger] self._audioTrack.samples@[i]) by {
                if i < t0.samples@.len() {
                    assert(self._audioTrack.samples@[i] == t0.samples@[i]);
                }
            }
        }
    }

    /// Sets the audio fields of the media information, and its type.
    fn set_audio_info(&mut self, codec: &String, rate: u32, ch: u32)
        ensures
            audio_info_set(old(self)._mediaInfo, final(self)._mediaInfo, codec@, rate, ch),
            *final(self) == (FLVDemuxer { _mediaInfo: final(self)._mediaInfo, ..*old(self) }),
            final(self)._mediaInfo == (MediaInfo {
                audioCodec: final(self)._mediaInfo.audioCodec,
                audioSampleRate: final(self)._mediaInfo.audioSampleRate,
                audioChannelCount: final(self)._mediaInfo.audioChannelCount,
                mimeType: final(self)._mediaInfo.mimeType,
                ..old(self)._mediaInfo
            }),
    {
        let mime = if self._mediaInfo.hasVideo == Some(true) {
            match &self._mediaInfo.videoCodec {
                Some(v) => Some(flv_mime_string(v, Some(codec))),
                None => None,
            }
        } else {
            Some(flv_mime_string(codec, None))
        };
        match mime {
            Some(t) => {
                self._mediaInfo.mimeType = Some(t);
            },
            None => {},
        }
        self._mediaInfo.audioCodec = Some(codec.clone());
        self._mediaInfo.audioSampleRate = Some(rate);
        self._mediaInfo.audioChannelCount = Some(ch);
    }

    /// Hands a copy of the audio metadata to the remuxer and reports its init segment.
    fn announce_audio(&mut self, remuxer: &mut MP4Remuxer, events: &mut Vec<DemuxEvent>)
        requires
            old(self).wf(),
            old(remuxer).wf(),
            old(self)._audioMetadata is Some,
        ensures
            *final(self) == *old(self),
            final(remuxer).wf(),
            final(events)@.len() == old(events)@.len() + 1,
            final(events)@.drop_last() == old(events)@,
            final(events)@.last() matches DemuxEvent::Init(seg),
            final(remuxer)._audioMeta matches Some(rm),
            audio_meta_same(final(remuxer)._audioMeta->Some_0, old(self)._audioMetadata->Some_0),
            init_segment_is(final(events)@.last()->Init_0, final(remuxer)._audioMeta->Some_0.meta,
                crate::mp4_remuxer::is_mp3(final(remuxer)._audioMeta->Some_0.meta.codec@) && final(remuxer)._mp3UseMpegAudio),
            final(remuxer)._mp3UseMpegAudio == old(remuxer)._mp3UseMpegAudio,
            *final(remuxer) == (MP4Remuxer { _audioMeta: final(remuxer)._audioMeta, ..*old(remuxer) }),
    {
        let copy = match &self._audioMetadata {
            Some(m) => copy_audio_meta(m),
            None => {
                return;
            },
        };
        proof {
            crate::mp4_generator::lemma_meta_fits_same(copy.meta, self._audioMetadata->Some_0.meta);
        }
        let seg = remuxer._onTrackMetadataReceived(Tmd::Audio(copy));
        events.push(DemuxEvent::Init(seg));
        assert(events@.drop_last() =~= old(events)@);
    }
}

impl FLVDemuxer {
    /// Takes an AAC AudioSpecificConfig: the track is configured and announced, unless the
    /// configuration repeats the one it has.
    #[verifier::rlimit(40)]
    #[verifier::spinoff_prover]
    fn take_aac_config(
        &mut self,
        misc: AudioConfig,
        Ghost(r): Ghost<(Seq<u8>, u32, nat, nat, nat)>,
        remuxer: &mut MP4Remuxer,
        events: &mut Vec<DemuxEvent>,
    )
        requires
            old(self).wf(),
            old(remuxer).wf(),
            old(self)._audioMetadata is Some,
            crate::flv_codec::aac_config_is(misc, r),
            r.0.len() <= 4,
            1 <= r.1 <= 96000,
            r.2 < 8,
        ensures
            final(self).wf(),
            final(remuxer).wf(),
            ({
                let m0 = old(self)._audioMetadata->Some_0;
                let codec = crate::flv_codec::mp4a_codec(r.3);
                let original = crate::flv_codec::mp4a_codec(r.4);
                if m0.meta.channelCount == r.2 && m0.meta.audioSampleRate == r.1 && m0.meta.codec@ == codec
                    && m0.originalCodec@ == original {
                    *final(self) == *old(self) && *final(remuxer) == *old(remuxer) && final(events)@ == old(events)@
                } else {
                    &&& audio_configured(*old(self), *final(self), r.1, r.2 as u32, codec, original, r.0,
                        1024 * old(self)._timescale, original)
                    &&& audio_sent(*old(self), *final(self))
                    &&& audio_announced(*final(self), *final(remuxer), final(events)@)
                    &&& announced(old(events)@, final(events)@, final(self)._mediaInfo)
                    &&& !final(self)._dispatch
                    &&& audio_flushed_announced(*old(self), *final(self), *old(remuxer), *final(remuxer), old(events)@, final(events)@)
                }
            }),
    {
        let mut m = match self._audioMetadata.take() {
            Some(m) => m,
            None => {
                return;
            },
        };
        if m.meta.channelCount == misc.channelCount && m.meta.audioSampleRate == misc.samplingRate
            && m.meta.codec == misc.codec && m.originalCodec == misc.originalCodec {
            // audio specific config did not change: discarded
            self._audioMetadata = Some(m);
            return;
        }
        let rate = misc.samplingRate;
        let ch = misc.channelCount;
        let original = misc.originalCodec.clone();
        m.meta.audioSampleRate = rate;
        m.meta.channelCount = ch;
        m.meta.codec = misc.codec;
        m.originalCodec = misc.originalCodec;
        m.meta.config = misc.config;
        // the decode result of an AAC frame is 1024 PCM samples
        m.refSampleDurationNum = 1024 * self._timescale as u64;
        m.refSampleDurationDen = rate as u64;
        self._audioMetadata = Some(m);
        let ghost dm = *self;
        let ghost e0 = events@;
        assert(initial_metadata_dispatched(dm) == initial_metadata_dispatched(*old(self)));
        self.flush_before_metadata(false, remuxer, events);
        let ghost df = *self;
        let ghost rF = *remuxer;
        let ghost eF = events@;
        self._dispatch = false;
        let ghost e1 = events@;
        self.announce_audio(remuxer, events);
        let ghost e2 = events@;
        self.set_audio_info(&original, rate, ch);
        let complete = self._mediaInfo.isComplete();
        if complete {
            events.push(DemuxEvent::MediaInfo);
        }
        proof {
            assert(audio_sent(*old(self), df));
            let e3 = events@;
            let fl = eF.skip(e0.len() as int);
            assert(samples_flushed(initial_metadata_dispatched(*old(self)), *old(self), *self, *old(remuxer), rF, fl));
            assert(eF =~= e0 + fl);
            assert(e3 =~= e0 + fl + seq![e3[(e0.len() + fl.len()) as int]] + info_events(self._mediaInfo));
            assert(*remuxer == (MP4Remuxer { _audioMeta: remuxer._audioMeta, ..rF }));
            assert(e2.take(e0.len() as int) =~= e0) by {
                assert(e1.take(e0.len() as int) == e0);
                assert(e2.drop_last() == e1);
            }
            assert(e3.take(e0.len() as int) =~= e0);
            if complete {
                assert(e3.skip(e2.len() as int) =~= seq![DemuxEvent::MediaInfo]);
                assert(e3[e2.len() - 1] == e2.last());
            } else {
                assert(e3.skip(e2.len() as int) =~= Seq::<DemuxEvent>::empty());
            }
        }
    }

    /// Takes an AAC packet: a sequence header (type 0) configures the track; a packet of
    /// any other type is queued as a raw frame.
    pub fn _parseAACAudioData(
        &mut self,
        arrayBuffer: &[u8],
        dataOffset: usize,
        dataSize: usize,
        tagTimestamp: u32,
        remuxer: &mut MP4Remuxer,
        events: &mut Vec<DemuxEvent>,
    )
        requires
            old(self).wf(),
            old(remuxer).wf(),
            old(self)._audioMetadata is Some,
            dataOffset + dataSize <= arrayBuffer@.len(),
            8 * arrayBuffer@.len() <= usize::MAX,
        ensures
            final(self).wf(),
            final(remuxer).wf(),
            aac_packet_taken(*old(self), *final(self), *old(remuxer), *final(remuxer), old(events)@, final(events)@,
                arrayBuffer@, dataOffset as int, dataSize as int, tagTimestamp),
    {
        if dataSize <= 1 {
            return;
        }
        let packetType = arrayBuffer[dataOffset];
        if packetType == 0 {
            // AAC sequence header (AudioSpecificConfig)
            let ghost r = crate::flv_codec::spec_aac_config(arrayBuffer@, dataOffset + 1, dataSize - 1, self._browser);
            match crate::flv_codec::_parseAACAudioSpecificConfig(arrayBuffer, dataOffset + 1, dataSize - 1, self._browser) {
                Ok(misc) => {
                    proof {
                        crate::flv_codec::lemma_aac_config_bounds(arrayBuffer@, dataOffset + 1, dataSize - 1, self._browser);
                    }
                    self.take_aac_config(misc, Ghost(r->Ok_0), remuxer, events);
                },
                Err(e) => {
                    events.push(DemuxEvent::Error(e));
                },
            }
        } else {
            // AAC raw frame data
            self.queue_audio(arrayBuffer, dataOffset + 1, dataSize - 1, tagTimestamp);
        }
    }

    /// Takes an MP3 frame header: the track is configured and announced.
    fn take_mp3_config(&mut self, misc: AudioConfig, remuxer: &mut MP4Remuxer, events: &mut Vec<DemuxEvent>)
        requires
            old(self).wf(),
            old(remuxer).wf(),
            old(self)._audioMetadata is Some,
            misc.codec@ == seq!['m', 'p', '3'],
            misc.originalCodec@ == seq!['m', 'p', '3'],
            misc.config@.len() == 0,
        ensures
            final(self).wf(),
            final(remuxer).wf(),
            audio_configured(*old(self), *final(self), misc.samplingRate, misc.channelCount, seq!['m', 'p', '3'],
                seq!['m', 'p', '3'], Seq::empty(), 1152 * old(self)._timescale, seq!['m', 'p', '3']),
            final(self)._mediaInfo.audioDataRate == Some(misc.bitRate as i64),
            final(self)._audioInitialMetadataDispatched,
            audio_announced(*final(self), *final(remuxer), final(events)@),
            announced(old(events)@, final(events)@, final(self)._mediaInfo),
            final(self)._audioTrack == old(self)._audioTrack,
            final(self)._timestampBase == old(self)._timestampBase,
            *final(self) == (FLVDemuxer {
                _audioMetadata: final(self)._audioMetadata,
                _audioInitialMetadataDispatched: true,
                _mediaInfo: final(self)._mediaInfo,
                ..*old(self)
            }),
            *final(remuxer) == (MP4Remuxer { _audioMeta: final(remuxer)._audioMeta, ..*old(remuxer) }),
            final(events)@.len() == old(events)@.len() + 1 + info_events(final(self)._mediaInfo).len(),
    {
        let mut m = match self._audioMetadata.take() {
            Some(m) => m,
            None => {
                return;
            },
        };
        let rate = misc.samplingRate;
        let ch = misc.channelCount;
        let codec = misc.codec.clone();
        assert(misc.config@ =~= Seq::<u8>::empty());
        m.meta.audioSampleRate = rate;
        m.meta.channelCount = ch;
        m.meta.codec = misc.codec;
        m.originalCodec = misc.originalCodec;
        m.meta.config = misc.config;
        // the decode result of an MP3 frame is 1152 PCM samples
        m.refSampleDurationNum = 1152 * self._timescale as u64;
        m.refSampleDurationDen = rate as u64;
        self._audioMetadata = Some(m);
        self._audioInitialMetadataDispatched = true;
        let ghost e0 = events@;
        self.announce_audio(remuxer, events);
        let ghost e2 = events@;
        self.set_audio_info(&codec, rate, ch);
        self._mediaInfo.audioDataRate = Some(misc.bitRate as i64);
        let complete = self._mediaInfo.isComplete();
        if complete {
            events.push(DemuxEvent::MediaInfo);
        }
        proof {
            let e3 = events@;
            assert(e3.take(e0.len() as int) =~= e0);
            if complete {
                assert(e3.skip(e2.len() as int) =~= seq![DemuxEvent::MediaInfo]);
                assert(e3[e2.len() - 1] == e2.last());
            } else {
                assert(e3.skip(e2.len() as int) =~= Seq::<DemuxEvent>::empty());
            }
        }
    }

    /// Takes an MP3 frame: the first one configures the track from its header; the frame
    /// is queued.
    pub fn _parseMP3AudioData(
        &mut self,
        arrayBuffer: &[u8],
        dataOffset: usize,
        dataSize: usize,
        tagTimestamp: u32,
        remuxer: &mut MP4Remuxer,
        events: &mut Vec<DemuxEvent>,
    )
        requires
            old(self).wf(),
            old(remuxer).wf(),
            old(self)._audioMetadata is Some,
            dataOffset + dataSize <= arrayBuffer@.len(),
            8 * arrayBuffer@.len() <= usize::MAX,
        ensures
            final(self).wf(),
            final(remuxer).wf(),
            mp3_frame_taken(*old(self), *final(self), *old(remuxer), *final(remuxer), old(events)@, final(events)@,
                arrayBuffer@, dataOffset as int, dataSize as int, tagTimestamp),
    {
        let need_header = match &self._audioMetadata {
            Some(m) => m.meta.codec.as_str().unicode_len() == 0,
            None => false,
        };
        if need_header {
            match crate::flv_codec::parse_mp3_header(arrayBuffer, dataOffset, dataSize) {
                None => {
                    return;
                },
                Some(misc) => {
                    self.take_mp3_config(misc, remuxer, events);
                },
            }
        }
        let ghost dc = *self;
        self.queue_audio(arrayBuffer, dataOffset, dataSize, tagTimestamp);
        proof {
            if need_header {
                assert(audio_queued(dc, *self, arrayBuffer@, dataOffset as int, dataSize as int, tagTimestamp));
            }
        }
    }

    /// Takes the body of an audio tag.
    pub fn _parseAudioData(
        &mut self,
        arrayBuffer: &[u8],
        dataOffset: usize,
        dataSize: usize,
        tagTimestamp: u32,
        remuxer: &mut MP4Remuxer,
        events: &mut Vec<DemuxEvent>,
    )
        requires
            old(self).wf(),
            old(remuxer).wf(),
            dataOffset + dataSize <= arrayBuffer@.len(),
            8 * arrayBuffer@.len() <= usize::MAX,
        ensures
            final(self).wf(),
            final(remuxer).wf(),
            audio_tag_taken(*old(self), *final(self), *old(remuxer), *final(remuxer), old(events)@, final(events)@,
                arrayBuffer@, dataOffset as int, dataSize as int, tagTimestamp),
    {
        if dataSize <= 1 {
            return;
        }
        if self._hasAudioFlagOverrided && !self._hasAudio {
            // audio was explicitly turned off: its packets are ignored
            return;
        }
        let soundSpec = arrayBuffer[dataOffset];
        let soundFormat = soundSpec >> 4;
        proof {
            assert(soundSpec >> 4 == soundSpec / 16) by (bit_vector);
            assert((soundSpec & 0x0C) >> 2 == (soundSpec % 16) / 4) by (bit_vector);
            assert((soundSpec & 1 == 0) == (soundSpec % 2 == 0)) by (bit_vector);
        }
        if soundFormat != 2 && soundFormat != 10 {
            events.push(DemuxEvent::Error(DemuxError::UnsupportedAudioCodec(soundFormat)));
            return;
        }
        let rates: [u32; 4] = [5500, 11025, 22050, 44100];
        assert(rates@ =~= FLV_SOUND_RATES());
        let soundRate = rates[((soundSpec & 0x0C) >> 2) as usize];
        let channels: u32 = if soundSpec & 1 == 0 { 1 } else { 2 };
        self.audio_meta_begin(soundRate, channels);
        let ghost dm = *self;
        let ghost r0 = *remuxer;
        let ghost e0 = events@;
        if soundFormat == 10 {
            self._parseAACAudioData(arrayBuffer, dataOffset + 1, dataSize - 1, tagTimestamp, remuxer, events);
            proof {
                assert(aac_packet_taken(dm, *self, r0, *remuxer, e0, events@, arrayBuffer@, dataOffset + 1, dataSize - 1, tagTimestamp));
            }
        } else {
            self._parseMP3AudioData(arrayBuffer, dataOffset + 1, dataSize - 1, tagTimestamp, remuxer, events);
            proof {
                assert(mp3_frame_taken(dm, *self, r0, *remuxer, e0, events@, arrayBuffer@, dataOffset + 1, dataSize - 1, tagTimestamp));
            }
        }
        proof {
            assert(audio_meta_begun(*old(self), dm, soundRate, channels));
            assert(r0 == *old(remuxer));
            assert(e0 == old(events)@);
            let b0 = arrayBuffer@[dataOffset as int];
            assert(soundRate == FLV_SOUND_RATES()[((b0 % 16) / 4) as int]);
            assert(soundFormat == (b0 / 16) as u8);
            let rate = FLV_SOUND_RATES()[((b0 % 16) / 4) as int];
            let ch: u32 = if b0 % 2 == 0 { 1 } else { 2 };
            assert(ch == channels);
            let fmt = (b0 / 16) as u8;
            assert(audio_meta_begun(*old(self), dm, rate, ch) && if fmt == 10 {
                aac_packet_taken(dm, *self, *old(remuxer), *remuxer, old(events)@, events@, arrayBuffer@, dataOffset + 1, dataSize - 1, tagTimestamp)
            } else {
                mp3_frame_taken(dm, *self, *old(remuxer), *remuxer, old(events)@, events@, arrayBuffer@, dataOffset + 1, dataSize - 1, tagTimestamp)
            });
            assert(audio_body_taken(*old(self), *self, *old(remuxer), *remuxer, old(events)@, events@,
                arrayBuffer@, dataOffset as int, dataSize as int, tagTimestamp, fmt == 10, rate, ch));
        }
    }
}

// ---------------------------------------------------------------- script tags

/// `onMetaData`
pub open spec fn ON_METADATA() -> Seq<u8> {
    seq![111u8, 110, 77, 101, 116, 97, 68, 97, 116, 97]
}

/// `hasAudio`
pub open spec fn HAS_AUDIO() -> Seq<u8> {
    seq![104u8, 97, 115, 65, 117, 100, 105, 111]
}

/// `hasVideo`
pub open spec fn HAS_VIDEO() -> Seq<u8> {
    seq![104u8, 97, 115, 86, 105, 100, 101, 111]
}

/// `keyframes`
pub open spec fn KEYFRAMES() -> Seq<u8> {
    seq![107u8, 101, 121, 102, 114, 97, 109, 101, 115]
}

/// The boolean a metadata property holds, if it holds one.
pub open spec fn bool_prop(props: Seq<(Seq<u8>, AmfV)>, key: Seq<u8>) -> Option<bool> {
    match prop_lookup(props, key) {
        Some(AmfV::Boolean(b)) => Some(b),
        _ => None,
    }
}

/// What a script tag body at `[off, off + size)` does; `r` tells whether it held
/// `onMetaData`, whose numbers then wait for `applyScriptNumbers`.
pub open spec fn script_tag_taken(d0: FLVDemuxer, d1: FLVDemuxer, e0: Seq<DemuxEvent>, e1: Seq<DemuxEvent>, buf: Seq<u8>, off: int, size: int, r: bool) -> bool {
    match amf_script(buf, off, size) {
        None => d1 == d0 && e1 == e0.push(DemuxEvent::Error(DemuxError::TruncatedScriptData)) && !r,
        Some(None) => d1 == d0 && e1 == e0 && !r,
        Some(Some((name, props))) => if name != ON_METADATA() {
            d1 == d0 && e1 == e0 && !r
        } else {
            let ha = if !d0._hasAudioFlagOverrided { bool_prop(props, HAS_AUDIO()) } else { None };
            let hv = if !d0._hasVideoFlagOverrided { bool_prop(props, HAS_VIDEO()) } else { None };
            &&& r
            &&& e1 == e0.push(DemuxEvent::ScriptMetadata)
            &&& d1._hasAudio == match ha { Some(b) => b, None => d0._hasAudio }
            &&& d1._hasVideo == match hv { Some(b) => b, None => d0._hasVideo }
            &&& d1._mediaInfo.hasAudio == match ha { Some(b) => Some(b), None => d0._mediaInfo.hasAudio }
            &&& d1._mediaInfo.hasVideo == match hv { Some(b) => Some(b), None => d0._mediaInfo.hasVideo }
            &&& d1._mediaInfo.metadata matches Some(p)
            &&& view_props(p@, p@.len()) == props
            &&& d1._metadata is Some
            &&& d1 == (FLVDemuxer {
                _hasAudio: d1._hasAudio,
                _hasVideo: d1._hasVideo,
                _mediaInfo: d1._mediaInfo,
                _metadata: d1._metadata,
                ..d0
            })
            &&& d1._mediaInfo == (MediaInfo {
                hasAudio: d1._mediaInfo.hasAudio,
                hasVideo: d1._mediaInfo.hasVideo,
                metadata: d1._mediaInfo.metadata,
                ..d0._mediaInfo
            })
        },
    }
}

fn literal_bytes(which: u8) -> (r: Vec<u8>)
    ensures
        which == 0 ==> r@ == ON_METADATA(),
        which == 1 ==> r@ == HAS_AUDIO(),
        which == 2 ==> r@ == HAS_VIDEO(),
        which == 3 ==> r@ == KEYFRAMES(),
{
    let v: Vec<u8> = if which == 0 {
        vec![111u8, 110, 77, 101, 116, 97, 68, 97, 116, 97]
    } else if which == 1 {
        vec![104u8, 97, 115, 65, 117, 100, 105, 111]
    } else if which == 2 {
        vec![104u8, 97, 115, 86, 105, 100, 101, 111]
    } else {
        vec![107u8, 101, 121, 102, 114, 97, 109, 101, 115]
    };
    proof {
        if which == 0 {
            assert(v@ =~= ON_METADATA());
        } else if which == 1 {
            assert(v@ =~= HAS_AUDIO());
        } else if which == 2 {
            assert(v@ =~= HAS_VIDEO());
        } else {
            assert(v@ =~= KEYFRAMES());
        }
    }
    v
}

fn bool_property(props: &Vec<AMFProperty>, key: &[u8]) -> (r: Option<bool>)
    ensures
        r == bool_prop(view_props(props@, props@.len()), key@),
{
    match findProperty(props, key) {
        Some(AMFValue::Boolean(b)) => Some(*b),
        _ => None,
    }
}

impl FLVDemuxer {
    /// Takes the body of a script tag: `onMetaData` sets whether the stream has audio and
    /// video and becomes the metadata of the media information. `true` when it was
    /// `onMetaData`, whose numbers `applyScriptNumbers` takes.
    pub fn _parseScriptData(&mut self, arrayBuffer: &[u8], dataOffset: usize, dataSize: usize, events: &mut Vec<DemuxEvent>) -> (r: bool)
        requires
            old(self).wf(),
            dataOffset + dataSize <= arrayBuffer@.len(),
        ensures
            final(self).wf(),
            script_tag_taken(*old(self), *final(self), old(events)@, final(events)@, arrayBuffer@,
                dataOffset as int, dataSize as int, r),
    {
        let sd = match parseScriptData(arrayBuffer, dataOffset, dataSize) {
            Err(_) => {
                events.push(DemuxEvent::Error(DemuxError::TruncatedScriptData));
                return false;
            },
            Ok(None) => {
                return false;
            },
            Ok(Some(sd)) => sd,
        };
        let on_metadata = literal_bytes(0);
        if !crate::amf_parser::bytesEqual(sd.name.as_slice(), on_metadata.as_slice()) {
            return false;
        }
        let hasAudio = bool_property(&sd.properties, literal_bytes(1).as_slice());
        let hasVideo = bool_property(&sd.properties, literal_bytes(2).as_slice());
        if !self._hasAudioFlagOverrided {
            match hasAudio {
                Some(b) => {
                    self._hasAudio = b;
                    self._mediaInfo.hasAudio = Some(b);
                },
                None => {},
            }
        }
        if !self._hasVideoFlagOverrided {
            match hasVideo {
                Some(b) => {
                    self._hasVideo = b;
                    self._mediaInfo.hasVideo = Some(b);
                },
                None => {},
            }
        }
        self._mediaInfo.metadata = Some(sd.properties);
        self._metadata = Some(ScriptData { name: sd.name, properties: Vec::new() });
        events.push(DemuxEvent::ScriptMetadata);
        true
    }
}

/// The numbers of `onMetaData`, as the caller reads them from its doubles.
pub struct ScriptNumbers {
    pub audiodatarate: Option<i64>,
    pub videodatarate: Option<i64>,
    pub width: Option<i64>,
    pub height: Option<i64>,
    /// `floor(duration * timescale)`, when `duration` is a number.
    pub duration: Option<i64>,
    /// `floor(framerate * 1000)`, when `framerate` is a number.
    pub fps_num: Option<i64>,
    /// The keyframe times in milliseconds (`floor(t * 1000)`) and file positions, as
    /// listed, when `keyframes` holds both arrays.
    pub keyframes: Option<KeyframesIndex>,
}

/// The keyframes index: every entry but the first, times shifted by `base`; `None` when a
/// position is missing or a time leaves the 64-bit range.
pub open spec fn keyframes_of(times: Seq<i64>, positions: Seq<i64>, base: int) -> Option<(Seq<i64>, Seq<i64>)> {
    if times.len() <= 1 {
        Some((Seq::empty(), Seq::empty()))
    } else if positions.len() < times.len() || exists|j: int| 1 <= j < times.len() && !(i64::MIN <= base + #[trigger] times[j] <= i64::MAX) {
        None
    } else {
        Some((
            Seq::new((times.len() - 1) as nat, |j: int| (base + times[j + 1]) as i64),
            Seq::new((times.len() - 1) as nat, |j: int| positions[j + 1]),
        ))
    }
}

/// `keyframes` of the metadata holds an object.
pub open spec fn has_keyframes_object(mi: MediaInfo) -> bool {
    mi.metadata matches Some(p) && prop_lookup(view_props(p@, p@.len()), KEYFRAMES()) matches Some(AmfV::Object(_o))
}

/// The data rates, size, duration (unless overridden) and frame rate of `onMetaData`.
pub open spec fn numbers_set(d0: FLVDemuxer, d1: FLVDemuxer, n: ScriptNumbers) -> bool {
    let mi0 = d0._mediaInfo;
    let mi1 = d1._mediaInfo;
    &&& mi1.audioDataRate == if n.audiodatarate is Some { n.audiodatarate } else { mi0.audioDataRate }
    &&& mi1.videoDataRate == if n.videodatarate is Some { n.videodatarate } else { mi0.videoDataRate }
    &&& mi1.width == if n.width is Some { n.width } else { mi0.width }
    &&& mi1.height == if n.height is Some { n.height } else { mi0.height }
    &&& match n.duration {
        Some(x) => if !d0._durationOverrided {
            d1._duration == x && mi1.duration == Some(x)
        } else {
            d1._duration == d0._duration && mi1.duration == mi0.duration
        },
        None => d1._duration == d0._duration && mi1.duration == Some(0i64),
    }
    &&& match n.fps_num {
        Some(f) => if f > 0 {
            &&& d1._referenceFrameRate == (FrameInfo { fixed: true, fps: (f / 1000) as u64, fps_num: f as u64, fps_den: 1000 })
            &&& mi1.fps == Some((f / 1000) as u64)
        } else {
            d1._referenceFrameRate == d0._referenceFrameRate && mi1.fps == mi0.fps
        },
        None => d1._referenceFrameRate == d0._referenceFrameRate && mi1.fps == mi0.fps,
    }
}

/// The keyframes index the numbers give, for metadata whose `keyframes` holds an object.
pub open spec fn keyframes_given(mi0: MediaInfo, base: int, n: ScriptNumbers) -> Option<(Seq<i64>, Seq<i64>)> {
    if has_keyframes_object(mi0) {
        match n.keyframes {
            None => None,
            Some(k) => keyframes_of(k.times@, k.filepositions@, base),
        }
    } else {
        None
    }
}

/// The keyframes of `onMetaData`: an index when `keyframes` holds an object.
pub open spec fn keyframes_set(mi0: MediaInfo, mi1: MediaInfo, base: int, n: ScriptNumbers) -> bool {
    &&& mi1.hasKeyframesIndex == Some(has_keyframes_object(mi0))
    &&& match keyframes_given(mi0, base, n) {
        Some((t, p)) => mi1.keyframesIndex matches Some(k) && k.times@ == t && k.filepositions@ == p,
        None => mi1.keyframesIndex == mi0.keyframesIndex,
    }
}

/// The error reported when `keyframes` holds an object but no usable index came with it.
pub open spec fn keyframes_events(mi0: MediaInfo, base: int, n: ScriptNumbers) -> Seq<DemuxEvent> {
    if has_keyframes_object(mi0) && keyframes_given(mi0, base, n) is None {
        seq![DemuxEvent::Error(DemuxError::KeyframesFormat)]
    } else {
        Seq::empty()
    }
}

/// What the numbers of `onMetaData` do to the demuxer and its media information.
pub open spec fn script_numbers_applied(d0: FLVDemuxer, d1: FLVDemuxer, e0: Seq<DemuxEvent>, e1: Seq<DemuxEvent>, n: ScriptNumbers) -> bool {
    let base = d0._timestampBase as int;
    &&& numbers_set(d0, d1, n)
    &&& keyframes_set(d0._mediaInfo, d1._mediaInfo, base, n)
    &&& metadata_without_keyframes(d0._mediaInfo.metadata, d1._mediaInfo.metadata)
    &&& d1._mediaInfo == (MediaInfo {
        audioDataRate: d1._mediaInfo.audioDataRate,
        videoDataRate: d1._mediaInfo.videoDataRate,
        width: d1._mediaInfo.width,
        height: d1._mediaInfo.height,
        duration: d1._mediaInfo.duration,
        fps: d1._mediaInfo.fps,
        hasKeyframesIndex: d1._mediaInfo.hasKeyframesIndex,
        keyframesIndex: d1._mediaInfo.keyframesIndex,
        metadata: d1._mediaInfo.metadata,
        ..d0._mediaInfo
    })
    &&& !d1._dispatch
    &&& e1 == e0 + keyframes_events(d0._mediaInfo, base, n) + info_events(d1._mediaInfo)
    &&& d1 == (FLVDemuxer {
        _mediaInfo: d1._mediaInfo,
        _duration: d1._duration,
        _referenceFrameRate: d1._referenceFrameRate,
        _dispatch: d1._dispatch,
        ..d0
    })
}

/// The metadata once its `keyframes` entries were taken out (the index holds them).
pub open spec fn metadata_without_keyframes(m0: Option<Vec<AMFProperty>>, m1: Option<Vec<AMFProperty>>) -> bool {
    match (m0, m1) {
        (Some(p0), Some(p1)) => view_props(p1@, p1@.len()) == props_without(view_props(p0@, p0@.len()), KEYFRAMES()),
        (None, None) => true,
        _ => false,
    }
}

/// The media information fields, duration and frame rate the numbers of `onMetaData` give.
fn numbers_into(mi: &mut MediaInfo, n: &ScriptNumbers, overrided: bool, duration: i64, reference: &FrameInfo) -> (r: (i64, FrameInfo))
    ensures
        ({
            let mi0 = *old(mi);
            let mi1 = *final(mi);
            &&& mi1.audioDataRate == if n.audiodatarate is Some { n.audiodatarate } else { mi0.audioDataRate }
            &&& mi1.videoDataRate == if n.videodatarate is Some { n.videodatarate } else { mi0.videoDataRate }
            &&& mi1.width == if n.width is Some { n.width } else { mi0.width }
            &&& mi1.height == if n.height is Some { n.height } else { mi0.height }
            &&& match n.duration {
                Some(x) => if !overrided {
                    r.0 == x && mi1.duration == Some(x)
                } else {
                    r.0 == duration && mi1.duration == mi0.duration
                },
                None => r.0 == duration && mi1.duration == Some(0i64),
            }
            &&& match n.fps_num {
                Some(f) => if f > 0 {
                    &&& r.1 == (FrameInfo { fixed: true, fps: (f / 1000) as u64, fps_num: f as u64, fps_den: 1000 })
                    &&& mi1.fps == Some((f / 1000) as u64)
                } else {
                    r.1 == *reference && mi1.fps == mi0.fps
                },
                None => r.1 == *reference && mi1.fps == mi0.fps,
            }
            &&& mi1 == (MediaInfo {
                audioDataRate: mi1.audioDataRate,
                videoDataRate: mi1.videoDataRate,
                width: mi1.width,
                height: mi1.height,
                duration: mi1.duration,
                fps: mi1.fps,
                ..mi0
            })
        }),
{
    if n.audiodatarate.is_some() {
        mi.audioDataRate = n.audiodatarate;
    }
    if n.videodatarate.is_some() {
        mi.videoDataRate = n.videodatarate;
    }
    if n.width.is_some() {
        mi.width = n.width;
    }
    if n.height.is_some() {
        mi.height = n.height;
    }
    let dur = match n.duration {
        Some(d) => if !overrided {
            mi.duration = Some(d);
            d
        } else {
            duration
        },
        None => {
            mi.duration = Some(0);
            duration
        },
    };
    let rf = match n.fps_num {
        Some(f) => if f > 0 {
            let fps = (f / 1000) as u64;
            mi.fps = Some(fps);
            FrameInfo { fixed: true, fps, fps_num: f as u64, fps_den: 1000 }
        } else {
            copy_frame(reference)
        },
        None => copy_frame(reference),
    };
    (dur, rf)
}

impl FLVDemuxer {
    /// The keyframes index from the listed times (ms) and positions: the first entry is
    /// dropped and times are shifted by the timestamp base.
    pub fn _parseKeyframesIndex(&self, times: &Vec<i64>, filepositions: &Vec<i64>) -> (r: Result<KeyframesIndex, DemuxError>)
        requires
            self.wf(),
        ensures
            match keyframes_of(times@, filepositions@, self._timestampBase as int) {
                None => r == Err::<KeyframesIndex, DemuxError>(DemuxError::KeyframesFormat),
                Some((t, p)) => r matches Ok(k) && k.times@ == t && k.filepositions@ == p,
            },
    {
        let n = times.len();
        let mut outTimes: Vec<i64> = Vec::new();
        let mut outPositions: Vec<i64> = Vec::new();
        if n <= 1 {
            assert(outTimes@ =~= Seq::<i64>::empty());
            assert(outPositions@ =~= Seq::<i64>::empty());
            return Ok(KeyframesIndex { times: outTimes, filepositions: outPositions });
        }
        if filepositions.len() < n {
            return Err(DemuxError::KeyframesFormat);
        }
        let base = self._timestampBase;
        let mut i: usize = 1;
        while i < n
            invariant
                n == times@.len(),
                n <= filepositions@.len(),
                1 <= i <= n,
                base == self._timestampBase,
                forall|j: int| 1 <= j < i ==> i64::MIN <= base + #[trigger] times@[j] <= i64::MAX,
                outTimes@ == Seq::new((i - 1) as nat, |j: int| (base + times@[j + 1]) as i64),
                outPositions@ == Seq::new((i - 1) as nat, |j: int| filepositions@[j + 1]),
            decreases n - i,
        {
            let t = match base.checked_add(times[i]) {
                Some(t) => t,
                None => {
                    proof {
                        assert(!(i64::MIN <= base + times@[i as int] <= i64::MAX));
                    }
                    return Err(DemuxError::KeyframesFormat);
                },
            };
            outTimes.push(t);
            outPositions.push(filepositions[i]);
            i = i + 1;
            proof {
                assert(outTimes@ =~= Seq::new((i - 1) as nat, |j: int| (base + times@[j + 1]) as i64));
                assert(outPositions@ =~= Seq::new((i - 1) as nat, |j: int| filepositions@[j + 1]));
            }
        }
        Ok(KeyframesIndex { times: outTimes, filepositions: outPositions })
    }

    fn apply_numbers(&mut self, n: &ScriptNumbers)
        requires
            old(self).wf(),
        ensures
            final(self).wf(),
            numbers_set(*old(self), *final(self), *n),
            final(self)._mediaInfo == (MediaInfo {
                audioDataRate: final(self)._mediaInfo.audioDataRate,
                videoDataRate: final(self)._mediaInfo.videoDataRate,
                width: final(self)._mediaInfo.width,
                height: final(self)._mediaInfo.height,
                duration: final(self)._mediaInfo.duration,
                fps: final(self)._mediaInfo.fps,
                ..old(self)._mediaInfo
            }),
            final(self)._mediaInfo.metadata == old(self)._mediaInfo.metadata,
            final(self)._mediaInfo.hasKeyframesIndex == old(self)._mediaInfo.hasKeyframesIndex,
            final(self)._mediaInfo.keyframesIndex == old(self)._mediaInfo.keyframesIndex,
            *final(self) == (FLVDemuxer {
                _mediaInfo: final(self)._mediaInfo,
                _duration: final(self)._duration,
                _referenceFrameRate: final(self)._referenceFrameRate,
                ..*old(self)
            }),
    {
        let mut mi = MediaInfo::default();
        std::mem::swap(&mut mi, &mut self._mediaInfo);
        let (dur, rf) = numbers_into(&mut mi, n, self._durationOverrided, self._duration, &self._referenceFrameRate);
        self._mediaInfo = mi;
        self._duration = dur;
        self._referenceFrameRate = rf;
    }

    fn apply_keyframes(&mut self, n: &ScriptNumbers, events: &mut Vec<DemuxEvent>)
        requires
            old(self).wf(),
        ensures
            final(self).wf(),
            keyframes_set(old(self)._mediaInfo, final(self)._mediaInfo, old(self)._timestampBase as int, *n),
            final(events)@ == old(events)@ + keyframes_events(old(self)._mediaInfo, old(self)._timestampBase as int, *n),
            final(self)._mediaInfo == (MediaInfo {
                hasKeyframesIndex: final(self)._mediaInfo.hasKeyframesIndex,
                keyframesIndex: final(self)._mediaInfo.keyframesIndex,
                ..old(self)._mediaInfo
            }),
            *final(self) == (FLVDemuxer { _mediaInfo: final(self)._mediaInfo, ..*old(self) }),
    {
        let hasKeyframes = match &self._mediaInfo.metadata {
            Some(props) => match findProperty(props, literal_bytes(3).as_slice()) {
                Some(AMFValue::Object(_)) => true,
                _ => false,
            },
            None => false,
        };
        self._mediaInfo.hasKeyframesIndex = Some(hasKeyframes);
        if hasKeyframes {
            let parsed = match &n.keyframes {
                Some(k) => match self._parseKeyframesIndex(&k.times, &k.filepositions) {
                    Ok(idx) => Some(idx),
                    Err(_) => None,
                },
                None => None,
            };
            match parsed {
                Some(idx) => {
                    self._mediaInfo.keyframesIndex = Some(idx);
                },
                None => {
                    events.push(DemuxEvent::Error(DemuxError::KeyframesFormat));
                },
            }
        }
        proof {
            if !hasKeyframes {
                assert(final(events)@ =~= old(events)@ + keyframes_events(old(self)._mediaInfo, old(self)._timestampBase as int, *n));
            }
        }
    }

    /// Takes the numbers of `onMetaData`: data rates, size, duration (unless overridden),
    /// frame rate, and the keyframes index.
    pub fn applyScriptNumbers(&mut self, n: ScriptNumbers, events: &mut Vec<DemuxEvent>)
        requires
            old(self).wf(),
        ensures
            final(self).wf(),
            script_numbers_applied(*old(self), *final(self), old(events)@, final(events)@, n),
    {
        self.apply_numbers(&n);
        let ghost d1 = *self;
        self.apply_keyframes(&n, events);
        let ghost d2 = *self;
        let metadata = self._mediaInfo.metadata.take();
        self._mediaInfo.metadata = match metadata {
            Some(mut props) => {
                let key = literal_bytes(3);
                removeProperty(&mut props, key.as_slice());
                Some(props)
            },
            None => None,
        };
        self._dispatch = false;
        let ghost e1 = events@;
        if self._mediaInfo.isComplete() {
            events.push(DemuxEvent::MediaInfo);
        }
        proof {
            assert(events@ =~= e1 + info_events(self._mediaInfo));
            assert(d1._mediaInfo.metadata == old(self)._mediaInfo.metadata);
        }
    }
}

} // verus!
